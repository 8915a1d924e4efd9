//! From the command line, the environment and the configuration to what a run
//! is to do.
use crate::acp::{normalize_session_name, session_name};
use crate::config::{BehaviorCfg, ConcurrencyCfg, ContextCfg, PermissionMode, ResolvedPermissions};
use crate::lineage::CacheTtl;
use crate::text::{
    blank, decimal, decimal_of, opt_str, opt_text, parse_signed, parse_unsigned, parsed_signed,
    parsed_unsigned, same, texts, trimmed,
};
use crate::vars::{var, var_or, Env};
use vstd::prelude::*;
use vstd::string::*;

verus! {

/// The exit code of a wrong command line.
pub const EXIT_USAGE: i32 = 2;

/// What the first argument asks for.
#[derive(Debug, PartialEq, Eq)]
pub enum Command {
    Watch,
    Fleet,
    /// A word that is kept for later.
    Reserved(String),
    Help,
    Agent,
}

/// The view of a [`Command`].
#[verifier::ext_equal]
pub enum CommandV {
    Watch,
    Fleet,
    Reserved(Seq<char>),
    Help,
    Agent,
}

impl View for Command {
    type V = CommandV;

    open spec fn view(&self) -> CommandV {
        match *self {
            Command::Watch => CommandV::Watch,
            Command::Fleet => CommandV::Fleet,
            Command::Reserved(s) => CommandV::Reserved(s@),
            Command::Help => CommandV::Help,
            Command::Agent => CommandV::Agent,
        }
    }
}

/// What the first word of a command line means.
pub open spec fn command_meant(args: Seq<Seq<char>>) -> CommandV {
    if args.len() == 0 {
        CommandV::Agent
    } else if args[0] == "watch"@ {
        CommandV::Watch
    } else if args[0] == "fleet"@ {
        CommandV::Fleet
    } else if args[0] == "doctor"@ || args[0] == "update"@ {
        CommandV::Reserved(args[0])
    } else if args[0] == "--help"@ || args[0] == "-h"@ || args[0] == "help"@ {
        CommandV::Help
    } else {
        CommandV::Agent
    }
}

/// What a command line asks for.
pub fn command_of(args: &[String]) -> (r: Command)
    ensures
        r@ == command_meant(texts(args@)),
{
    if args.len() == 0 {
        return Command::Agent;
    }
    let first = args[0].as_str();
    assert(texts(args@)[0] == first@);
    if same(first, "watch") {
        Command::Watch
    } else if same(first, "fleet") {
        Command::Fleet
    } else if same(first, "doctor") || same(first, "update") {
        Command::Reserved(first.to_owned())
    } else if same(first, "--help") || same(first, "-h") || same(first, "help") {
        Command::Help
    } else {
        Command::Agent
    }
}

/// Where the headless prompt comes from.
#[derive(Debug, PartialEq, Eq)]
pub enum Prompt {
    Text(String),
    Stdin,
}

/// The view of a [`Prompt`].
#[verifier::ext_equal]
pub enum PromptV {
    Text(Seq<char>),
    Stdin,
}

impl View for Prompt {
    type V = PromptV;

    open spec fn view(&self) -> PromptV {
        match *self {
            Prompt::Text(s) => PromptV::Text(s@),
            Prompt::Stdin => PromptV::Stdin,
        }
    }
}

/// The view of an optional prompt.
pub open spec fn opt_prompt(o: Option<Prompt>) -> Option<PromptV> {
    match o {
        Some(p) => Some(p@),
        None => None,
    }
}

/// What standard input gave.
#[derive(Debug)]
pub enum Piped {
    /// It is a terminal, so nothing was piped.
    Terminal,
    Failed(String),
    Text(String),
}

/// A prompt's text, or why there is none.
pub open spec fn prompt_text(p: PromptV, piped: Piped) -> Result<Seq<char>, Seq<char>> {
    let text = match p {
        PromptV::Text(t) => Ok(t),
        PromptV::Stdin => match piped {
            Piped::Terminal => Err(
                "-p requires a prompt (or pipe one in: `echo … | hotl -p -`)"@,
            ),
            Piped::Failed(e) => Err("could not read the prompt from stdin: "@ + e@),
            Piped::Text(t) => Ok(t@),
        },
    };
    match text {
        Err(e) => Err(e),
        Ok(t) => if trimmed(t).len() == 0 {
            Err("-p requires a prompt"@)
        } else {
            Ok(t)
        },
    }
}

impl Prompt {
    /// The prompt's text; `piped` counts only where standard input is its
    /// source.
    pub fn resolve(self, piped: Piped) -> (r: Result<String, String>)
        ensures
            match r {
                Ok(t) => prompt_text(self@, piped) == Ok::<Seq<char>, Seq<char>>(t@),
                Err(e) => prompt_text(self@, piped) == Err::<Seq<char>, Seq<char>>(e@),
            },
    {
        let text = match self {
            Prompt::Text(t) => t,
            Prompt::Stdin => match piped {
                Piped::Terminal => {
                    return Err(
                        "-p requires a prompt (or pipe one in: `echo … | hotl -p -`)".to_owned(),
                    );
                },
                Piped::Failed(e) => {
                    let mut m = "could not read the prompt from stdin: ".to_owned();
                    m.append(e.as_str());
                    return Err(m);
                },
                Piped::Text(t) => t,
            },
        };
        if blank(text.as_str()) {
            return Err("-p requires a prompt".to_owned());
        }
        Ok(text)
    }
}

/// The headless command line, read.
#[derive(Debug)]
pub struct Args {
    pub prompt: Option<Prompt>,
    pub json_events: bool,
    pub schema: Option<String>,
    pub name: Option<String>,
    pub plan: bool,
    pub fork_from: Option<String>,
    pub keep: Option<usize>,
    pub keep_turns: Option<usize>,
}

/// The view of [`Args`].
#[verifier::ext_equal]
pub struct ArgsV {
    pub prompt: Option<PromptV>,
    pub json_events: bool,
    pub schema: Option<Seq<char>>,
    pub name: Option<Seq<char>>,
    pub plan: bool,
    pub fork_from: Option<Seq<char>>,
    pub keep: Option<usize>,
    pub keep_turns: Option<usize>,
}

impl View for Args {
    type V = ArgsV;

    open spec fn view(&self) -> ArgsV {
        ArgsV {
            prompt: opt_prompt(self.prompt),
            json_events: self.json_events,
            schema: opt_text(self.schema),
            name: opt_text(self.name),
            plan: self.plan,
            fork_from: opt_text(self.fork_from),
            keep: self.keep,
            keep_turns: self.keep_turns,
        }
    }
}

/// An empty command line.
pub open spec fn no_args() -> ArgsV {
    ArgsV {
        prompt: None,
        json_events: false,
        schema: None,
        name: None,
        plan: false,
        fork_from: None,
        keep: None,
        keep_turns: None,
    }
}

impl Default for Args {
    fn default() -> (r: Args)
        ensures
            r@ == no_args(),
    {
        Args {
            prompt: None,
            json_events: false,
            schema: None,
            name: None,
            plan: false,
            fork_from: None,
            keep: None,
            keep_turns: None,
        }
    }
}

/// What is wrong with a command line.
#[derive(Debug, PartialEq, Eq)]
pub enum UsageError {
    NeedsValue(String),
    NotANumber { flag: String, raw: String },
    BadName,
    Unknown(String),
    SchemaNeedsPrompt,
    ForkWithSchema,
    KeepNeedsFork,
    KeepTwice,
}

/// The view of a [`UsageError`].
#[verifier::ext_equal]
pub enum UsageErrorV {
    NeedsValue(Seq<char>),
    NotANumber(Seq<char>, Seq<char>),
    BadName,
    Unknown(Seq<char>),
    SchemaNeedsPrompt,
    ForkWithSchema,
    KeepNeedsFork,
    KeepTwice,
}

impl View for UsageError {
    type V = UsageErrorV;

    open spec fn view(&self) -> UsageErrorV {
        match *self {
            UsageError::NeedsValue(s) => UsageErrorV::NeedsValue(s@),
            UsageError::NotANumber { flag, raw } => UsageErrorV::NotANumber(flag@, raw@),
            UsageError::BadName => UsageErrorV::BadName,
            UsageError::Unknown(s) => UsageErrorV::Unknown(s@),
            UsageError::SchemaNeedsPrompt => UsageErrorV::SchemaNeedsPrompt,
            UsageError::ForkWithSchema => UsageErrorV::ForkWithSchema,
            UsageError::KeepNeedsFork => UsageErrorV::KeepNeedsFork,
            UsageError::KeepTwice => UsageErrorV::KeepTwice,
        }
    }
}

/// What is said of a wrong command line.
pub open spec fn usage_message(e: UsageErrorV) -> Seq<char> {
    match e {
        UsageErrorV::NeedsValue(flag) => flag + " needs a value"@,
        UsageErrorV::NotANumber(flag, raw) => flag
            + " needs a non-negative whole number, got `"@ + raw + "`"@,
        UsageErrorV::BadName => "-n/--name needs a value of 1–64 chars"@,
        UsageErrorV::Unknown(arg) => "unknown argument `"@ + arg + "` (try --help)"@,
        UsageErrorV::SchemaNeedsPrompt => "--json-schema requires -p \"<prompt>\""@,
        UsageErrorV::ForkWithSchema => "--fork-from is not supported with --json-schema"@,
        UsageErrorV::KeepNeedsFork => "--keep and --keep-turns only apply to --fork-from"@,
        UsageErrorV::KeepTwice => "--keep and --keep-turns are two ways to say the same thing; pick one"@,
    }
}

impl UsageError {
    /// What is said of the wrong command line.
    pub fn message(&self) -> (r: String)
        ensures
            r@ == usage_message(self@),
    {
        match self {
            UsageError::NeedsValue(flag) => {
                let mut s = flag.clone();
                s.append(" needs a value");
                s
            },
            UsageError::NotANumber { flag, raw } => {
                let mut s = flag.clone();
                s.append(" needs a non-negative whole number, got `");
                s.append(raw.as_str());
                s.append("`");
                s
            },
            UsageError::BadName => "-n/--name needs a value of 1–64 chars".to_owned(),
            UsageError::Unknown(arg) => {
                let mut s = "unknown argument `".to_owned();
                s.append(arg.as_str());
                s.append("` (try --help)");
                s
            },
            UsageError::SchemaNeedsPrompt => "--json-schema requires -p \"<prompt>\"".to_owned(),
            UsageError::ForkWithSchema =>
                "--fork-from is not supported with --json-schema".to_owned(),
            UsageError::KeepNeedsFork =>
                "--keep and --keep-turns only apply to --fork-from".to_owned(),
            UsageError::KeepTwice =>
                "--keep and --keep-turns are two ways to say the same thing; pick one".to_owned(),
        }
    }
}

/// The flags read from `rest` on, on top of what came before. A flag that
/// comes twice counts as it came last.
pub open spec fn read_args(rest: Seq<Seq<char>>, so_far: ArgsV) -> Result<ArgsV, UsageErrorV>
    decreases rest.len(),
{
    if rest.len() == 0 {
        Ok(so_far)
    } else {
        let arg = rest[0];
        let tail = rest.skip(1);
        if arg == "-p"@ || arg == "--print"@ {
            if tail.len() == 0 {
                Ok(ArgsV { prompt: Some(PromptV::Stdin), ..so_far })
            } else if tail[0] == "-"@ {
                read_args(tail.skip(1), ArgsV { prompt: Some(PromptV::Stdin), ..so_far })
            } else if tail[0].len() > 0 && tail[0][0] == '-' {
                read_args(tail, ArgsV { prompt: Some(PromptV::Stdin), ..so_far })
            } else {
                read_args(tail.skip(1), ArgsV { prompt: Some(PromptV::Text(tail[0])), ..so_far })
            }
        } else if arg == "--json"@ {
            read_args(tail, ArgsV { json_events: true, ..so_far })
        } else if arg == "--plan"@ {
            read_args(tail, ArgsV { plan: true, ..so_far })
        } else if arg == "--json-schema"@ {
            if tail.len() == 0 {
                Ok(ArgsV { schema: None, ..so_far })
            } else {
                read_args(tail.skip(1), ArgsV { schema: Some(tail[0]), ..so_far })
            }
        } else if arg == "--fork-from"@ || arg == "--keep"@ || arg == "--keep-turns"@ {
            if tail.len() == 0 {
                Err(UsageErrorV::NeedsValue(arg))
            } else if arg == "--fork-from"@ {
                read_args(tail.skip(1), ArgsV { fork_from: Some(tail[0]), ..so_far })
            } else {
                match parsed_unsigned(tail[0], usize::MAX as nat) {
                    None => Err(UsageErrorV::NotANumber(arg, tail[0])),
                    Some(n) => if arg == "--keep"@ {
                        read_args(tail.skip(1), ArgsV { keep: Some(n as usize), ..so_far })
                    } else {
                        read_args(tail.skip(1), ArgsV { keep_turns: Some(n as usize), ..so_far })
                    },
                }
            }
        } else if arg == "-n"@ || arg == "--name"@ {
            if tail.len() == 0 {
                Err(UsageErrorV::BadName)
            } else {
                match session_name(tail[0]) {
                    Some(n) => read_args(tail.skip(1), ArgsV { name: Some(n), ..so_far }),
                    None => Err(UsageErrorV::BadName),
                }
            }
        } else {
            Err(UsageErrorV::Unknown(arg))
        }
    }
}

/// What must hold of the flags together.
pub open spec fn flags_clash(a: ArgsV) -> Option<UsageErrorV> {
    if a.schema is Some && a.prompt is None {
        Some(UsageErrorV::SchemaNeedsPrompt)
    } else if a.schema is Some && a.fork_from is Some {
        Some(UsageErrorV::ForkWithSchema)
    } else if (a.keep is Some || a.keep_turns is Some) && a.fork_from is None {
        Some(UsageErrorV::KeepNeedsFork)
    } else if a.keep is Some && a.keep_turns is Some {
        Some(UsageErrorV::KeepTwice)
    } else {
        None
    }
}

/// A whole command line, read and checked.
pub open spec fn parsed_args(args: Seq<Seq<char>>) -> Result<ArgsV, UsageErrorV> {
    match read_args(args, no_args()) {
        Err(e) => Err(e),
        Ok(a) => match flags_clash(a) {
            Some(e) => Err(e),
            None => Ok(a),
        },
    }
}

fn check_flags(a: &Args) -> (r: Option<UsageError>)
    ensures
        match r {
            Some(e) => flags_clash(a@) == Some(e@),
            None => flags_clash(a@) is None,
        },
{
    let kept = a.keep.is_some() || a.keep_turns.is_some();
    if a.schema.is_some() && a.prompt.is_none() {
        Some(UsageError::SchemaNeedsPrompt)
    } else if a.schema.is_some() && a.fork_from.is_some() {
        Some(UsageError::ForkWithSchema)
    } else if kept && a.fork_from.is_none() {
        Some(UsageError::KeepNeedsFork)
    } else if a.keep.is_some() && a.keep_turns.is_some() {
        Some(UsageError::KeepTwice)
    } else {
        None
    }
}

fn starts_with_dash(s: &str) -> (r: bool)
    ensures
        r == (s@.len() > 0 && s@[0] == '-'),
{
    s.unicode_len() > 0 && s.get_char(0) == '-'
}

/// Reads and checks the headless command line.
pub fn parse_args(args: Vec<String>) -> (r: Result<Args, UsageError>)
    ensures
        match r {
            Ok(a) => parsed_args(texts(args@)) == Ok::<ArgsV, UsageErrorV>(a@),
            Err(e) => parsed_args(texts(args@)) == Err::<ArgsV, UsageErrorV>(e@),
        },
{
    let ghost all = texts(args@);
    let mut a = Args::default();
    let n: usize = args.len();
    let mut i: usize = 0;
    assert(all.skip(0) =~= all);
    while i < n
        invariant
            n == args.len(),
            all == texts(args@),
            0 <= i <= n,
            read_args(all, no_args()) == read_args(all.skip(i as int), a@),
            parsed_args(all) == (match read_args(all, no_args()) {
                Err(e) => Err::<ArgsV, UsageErrorV>(e),
                Ok(b) => match flags_clash(b) {
                    Some(e) => Err::<ArgsV, UsageErrorV>(e),
                    None => Ok::<ArgsV, UsageErrorV>(b),
                },
            }),
        decreases n - i,
    {
        let ghost before = a@;
        let ghost rest = all.skip(i as int);
        let arg = args[i].as_str();
        assert(rest[0] == arg@);
        assert(rest.skip(1) =~= all.skip(i + 1));
        assert(i + 1 < n ==> rest.skip(1)[0] == args@[i + 1]@);
        assert(i + 1 < n ==> rest.skip(1).skip(1) =~= all.skip(i + 2));
        assert(i + 1 == n ==> rest.skip(1).len() == 0);
        if same(arg, "-p") || same(arg, "--print") {
            if i + 1 == n {
                a.prompt = Some(Prompt::Stdin);
                i = i + 1;
                assert(all.skip(i as int) =~= Seq::empty());
                assert(a@ =~= ArgsV { prompt: Some(PromptV::Stdin), ..before });
            } else if same(args[i + 1].as_str(), "-") {
                a.prompt = Some(Prompt::Stdin);
                i = i + 2;
                assert(a@ =~= ArgsV { prompt: Some(PromptV::Stdin), ..before });
            } else if starts_with_dash(args[i + 1].as_str()) {
                a.prompt = Some(Prompt::Stdin);
                i = i + 1;
                assert(a@ =~= ArgsV { prompt: Some(PromptV::Stdin), ..before });
            } else {
                a.prompt = Some(Prompt::Text(args[i + 1].clone()));
                assert(a@ =~= ArgsV {
                    prompt: Some(PromptV::Text(args@[i + 1]@)),
                    ..before
                });
                i = i + 2;
            }
        } else if same(arg, "--json") {
            a.json_events = true;
            i = i + 1;
            assert(a@ =~= ArgsV { json_events: true, ..before });
        } else if same(arg, "--plan") {
            a.plan = true;
            i = i + 1;
            assert(a@ =~= ArgsV { plan: true, ..before });
        } else if same(arg, "--json-schema") {
            if i + 1 == n {
                a.schema = None;
                i = i + 1;
                assert(all.skip(i as int) =~= Seq::empty());
                assert(a@ =~= ArgsV { schema: None, ..before });
            } else {
                a.schema = Some(args[i + 1].clone());
                assert(a@ =~= ArgsV { schema: Some(args@[i + 1]@), ..before });
                i = i + 2;
            }
        } else if same(arg, "--fork-from") || same(arg, "--keep") || same(arg, "--keep-turns") {
            if i + 1 == n {
                return Err(UsageError::NeedsValue(arg.to_owned()));
            }
            let v = args[i + 1].as_str();
            if same(arg, "--fork-from") {
                a.fork_from = Some(v.to_owned());
                assert(a@ =~= ArgsV { fork_from: Some(v@), ..before });
            } else {
                match parse_unsigned(v, usize::MAX as u64) {
                    None => {
                        return Err(
                            UsageError::NotANumber { flag: arg.to_owned(), raw: v.to_owned() },
                        );
                    },
                    Some(m) => {
                        if same(arg, "--keep") {
                            a.keep = Some(m as usize);
                            assert(a@ =~= ArgsV { keep: Some(m as usize), ..before });
                        } else {
                            a.keep_turns = Some(m as usize);
                            assert(a@ =~= ArgsV { keep_turns: Some(m as usize), ..before });
                        }
                    },
                }
            }
            i = i + 2;
        } else if same(arg, "-n") || same(arg, "--name") {
            if i + 1 == n {
                return Err(UsageError::BadName);
            }
            match normalize_session_name(args[i + 1].as_str()) {
                Some(name) => {
                    a.name = Some(name);
                    assert(a@ =~= ArgsV { name: session_name(args@[i + 1]@), ..before });
                },
                None => {
                    return Err(UsageError::BadName);
                },
            }
            i = i + 2;
        } else {
            return Err(UsageError::Unknown(arg.to_owned()));
        }
    }
    assert(all.skip(i as int) =~= Seq::empty());
    match check_flags(&a) {
        Some(e) => Err(e),
        None => Ok(a),
    }
}

/// The headless fork request, as typed.
#[derive(Debug)]
pub struct ForkArgs {
    pub from: String,
    pub keep: Option<usize>,
    pub keep_turns: Option<usize>,
}

/// What a headless run is to do.
#[derive(Debug)]
pub enum Run {
    /// One turn whose answer must fit a schema.
    Structured { prompt: Prompt, schema: String, name: Option<String> },
    /// One turn, printed.
    Session {
        prompt: Prompt,
        json_events: bool,
        name: Option<String>,
        fork: Option<ForkArgs>,
    },
}

/// What a headless run is to do; without a prompt there is nothing to run.
pub fn plan_run(args: Args) -> (r: Result<Run, String>)
    ensures
        match (args.prompt, args.schema) {
            (None, _) => r matches Err(e) && e@
                == "-p \"prompt\" is required headless — the interactive console is bare `hotl` in a terminal"@,
            (Some(p), Some(s)) => r matches Ok(Run::Structured { prompt, schema, name }) && prompt
                == p && schema == s && name == args.name,
            (Some(p), None) => {
                &&& r matches Ok(Run::Session { prompt, json_events, name, fork })
                &&& prompt == p
                &&& json_events == args.json_events
                &&& name == args.name
                &&& match args.fork_from {
                    Some(from) => fork matches Some(f) && f.from == from && f.keep == args.keep
                        && f.keep_turns == args.keep_turns,
                    None => fork is None,
                }
            },
        },
{
    let prompt = match args.prompt {
        Some(p) => p,
        None => {
            return Err(
                "-p \"prompt\" is required headless — the interactive console is bare `hotl` in a terminal".to_owned(),
            );
        },
    };
    match args.schema {
        Some(schema) => Ok(Run::Structured { prompt, schema, name: args.name }),
        None => {
            let fork = match args.fork_from {
                Some(from) => Some(
                    ForkArgs { from, keep: args.keep, keep_turns: args.keep_turns },
                ),
                None => None,
            };
            Ok(Run::Session { prompt, json_events: args.json_events, name: args.name, fork })
        },
    }
}

/// What of the engine's configuration a run sets.
#[derive(Debug)]
pub struct EngineConfig {
    pub model: String,
    pub context_window: u64,
    pub max_turns: i64,
    pub fast_model: Option<String>,
    pub evict_threshold_tokens: u64,
    pub compaction_reset: bool,
    pub show_context_pct: bool,
    pub thinking: bool,
    pub cache_ttl: CacheTtl,
}

/// A number from the environment, else from the file, else the default.
pub open spec fn number_knob(
    vars: Seq<(Seq<char>, Seq<char>)>,
    name: Seq<char>,
    configured: Option<u64>,
    default: u64,
) -> u64 {
    let set = match var(vars, name) {
        Some(s) => parsed_unsigned(s, u64::MAX as nat),
        None => None,
    };
    match set {
        Some(n) => n as u64,
        None => match configured {
            Some(n) => n,
            None => default,
        },
    }
}

fn number(env: &Env, name: &str, configured: Option<u64>, default: u64) -> (r: u64)
    ensures
        r == number_knob(env@, name@, configured, default),
{
    let set: Option<u64> = match env.get(name) {
        Some(s) => parse_unsigned(s, u64::MAX),
        None => None,
    };
    match set {
        Some(n) => n,
        None => match configured {
            Some(n) => n,
            None => default,
        },
    }
}

/// The cap on model steps: that of the environment, else of the file, else the
/// default. A negative one stands for none.
pub open spec fn turns_knob(
    vars: Seq<(Seq<char>, Seq<char>)>,
    configured: Option<i64>,
    default: i64,
) -> i64 {
    let set = match var(vars, "HOTL_MAX_TURNS"@) {
        Some(s) => parsed_signed(s),
        None => None,
    };
    match set {
        Some(n) => n as i64,
        None => match configured {
            Some(n) => n,
            None => default,
        },
    }
}

/// The engine's configuration: the environment over the file over `base`.
pub fn engine_config(
    model: &str,
    env: &Env,
    context: &ContextCfg,
    behavior: &BehaviorCfg,
    fast_model: &Option<String>,
    base: EngineConfig,
) -> (r: EngineConfig)
    ensures
        r.model@ == model@,
        r.context_window == number_knob(
            env@,
            "HOTL_CONTEXT_WINDOW"@,
            context.window,
            base.context_window,
        ),
        r.max_turns == turns_knob(env@, behavior.max_turns, base.max_turns),
        opt_text(r.fast_model) == var_or(env@, "HOTL_FAST_MODEL"@, opt_text(*fast_model)),
        r.evict_threshold_tokens == number_knob(
            env@,
            "HOTL_EVICT_TOKENS"@,
            context.evict_tokens,
            base.evict_threshold_tokens,
        ),
        r.compaction_reset == (match var(env@, "HOTL_COMPACTION_RESET"@) {
            Some(v) => v == "1"@,
            None => context.compaction_reset == Some(true),
        }),
        r.show_context_pct == (match var(env@, "HOTL_HIDE_CONTEXT_PCT"@) {
            Some(v) => v != "1"@,
            None => context.show_used_pct != Some(false),
        }),
        r.thinking == (var(env@, "HOTL_THINKING"@) != Some("0"@) && base.thinking),
        r.cache_ttl == base.cache_ttl,
{
    let context_window: u64 = number(
        env,
        "HOTL_CONTEXT_WINDOW",
        context.window,
        base.context_window,
    );
    let set: Option<i64> = match env.get("HOTL_MAX_TURNS") {
        Some(s) => parse_signed(s),
        None => None,
    };
    let max_turns: i64 = match set {
        Some(n) => n,
        None => match behavior.max_turns {
            Some(n) => n,
            None => base.max_turns,
        },
    };
    let fast = match env.get_or("HOTL_FAST_MODEL", fast_model) {
        Some(m) => Some(m.to_owned()),
        None => None,
    };
    let evict: u64 = number(
        env,
        "HOTL_EVICT_TOKENS",
        context.evict_tokens,
        base.evict_threshold_tokens,
    );
    let compaction_reset = match env.get("HOTL_COMPACTION_RESET") {
        Some(v) => same(v, "1"),
        None => match context.compaction_reset {
            Some(b) => b,
            None => false,
        },
    };
    let show_context_pct = match env.get("HOTL_HIDE_CONTEXT_PCT") {
        Some(v) => !same(v, "1"),
        None => match context.show_used_pct {
            Some(b) => b,
            None => true,
        },
    };
    let thinking = match env.get("HOTL_THINKING") {
        Some(v) => !same(v, "0") && base.thinking,
        None => base.thinking,
    };
    EngineConfig {
        model: model.to_owned(),
        context_window,
        max_turns,
        fast_model: fast,
        evict_threshold_tokens: evict,
        compaction_reset,
        show_context_pct,
        thinking,
        cache_ttl: base.cache_ttl,
    }
}

/// How many agents, requests and subprocesses may run at once.
#[derive(Debug, Clone, Copy, PartialEq, Eq, Structural)]
pub struct ConcurrencyLimits {
    pub agents: usize,
    pub requests: usize,
    pub subprocs: usize,
}

/// A number that the environment sets, else the file.
pub open spec fn size_knob(
    vars: Seq<(Seq<char>, Seq<char>)>,
    name: Seq<char>,
    configured: Option<usize>,
) -> Option<usize> {
    let set = match var(vars, name) {
        Some(s) => parsed_unsigned(s, usize::MAX as nat),
        None => None,
    };
    match set {
        Some(n) => Some(n as usize),
        None => configured,
    }
}

fn size(env: &Env, name: &str, configured: Option<usize>) -> (r: Option<usize>)
    ensures
        r == size_knob(env@, name@, configured),
{
    let set: Option<u64> = match env.get(name) {
        Some(s) => parse_unsigned(s, usize::MAX as u64),
        None => None,
    };
    match set {
        Some(n) => Some(n as usize),
        None => configured,
    }
}

/// A limit: zero and nothing stand for the default.
pub open spec fn limit_of(set: Option<usize>, default: usize) -> usize {
    match set {
        Some(n) => if n > 0 {
            n
        } else {
            default
        },
        None => default,
    }
}

fn limit(set: Option<usize>, default: usize) -> (r: usize)
    ensures
        r == limit_of(set, default),
{
    match set {
        Some(n) => {
            if n > 0 {
                n
            } else {
                default
            }
        },
        None => default,
    }
}

/// The session's limits: the environment over the file over the defaults `d`.
pub fn concurrency_limits(env: &Env, cfg: &ConcurrencyCfg, d: ConcurrencyLimits) -> (r:
    ConcurrencyLimits)
    ensures
        r.agents == limit_of(size_knob(env@, "HOTL_CONCURRENCY_AGENTS"@, cfg.agents), d.agents),
        r.requests == limit_of(
            size_knob(env@, "HOTL_CONCURRENCY_REQUESTS"@, cfg.requests),
            d.requests,
        ),
        r.subprocs == limit_of(
            size_knob(env@, "HOTL_CONCURRENCY_SUBPROCS"@, cfg.subprocs),
            d.subprocs,
        ),
        d.agents > 0 && d.requests > 0 && d.subprocs > 0 ==> r.agents > 0 && r.requests > 0
            && r.subprocs > 0,
{
    ConcurrencyLimits {
        agents: limit(size(env, "HOTL_CONCURRENCY_AGENTS", cfg.agents), d.agents),
        requests: limit(size(env, "HOTL_CONCURRENCY_REQUESTS", cfg.requests), d.requests),
        subprocs: limit(size(env, "HOTL_CONCURRENCY_SUBPROCS", cfg.subprocs), d.subprocs),
    }
}

/// The runtime's worker and blocking threads, as they are asked for. Zero is a
/// value of its own here.
pub fn layer_c_resolved(env: &Env, cfg: &ConcurrencyCfg) -> (r: (Option<usize>, Option<usize>))
    ensures
        r.0 == size_knob(env@, "HOTL_CONCURRENCY_WORKER_THREADS"@, cfg.worker_threads),
        r.1 == size_knob(env@, "HOTL_CONCURRENCY_BLOCKING_THREADS"@, cfg.blocking_threads),
{
    (
        size(env, "HOTL_CONCURRENCY_WORKER_THREADS", cfg.worker_threads),
        size(env, "HOTL_CONCURRENCY_BLOCKING_THREADS", cfg.blocking_threads),
    )
}

/// The warning on worker threads, which have no effect.
pub fn layer_c_warning(worker_threads: Option<usize>) -> (r: Option<String>)
    ensures
        opt_text(r) == (if worker_threads is Some {
            Some(
                "[concurrency] worker_threads is set but not wired to a runtime — hotl deliberately runs a single current_thread runtime (switching to multi_thread risks breaking !Send futures across the TUI/actor code), so this has no effect. blocking_threads, however, is wired (bounds main.rs's blocking-task pool)."@,
            )
        } else {
            None
        }),
{
    match worker_threads {
        Some(_) => Some(
            "[concurrency] worker_threads is set but not wired to a runtime — hotl deliberately runs a single current_thread runtime (switching to multi_thread risks breaking !Send futures across the TUI/actor code), so this has no effect. blocking_threads, however, is wired (bounds main.rs's blocking-task pool).".to_owned(),
        ),
        None => None,
    }
}

/// Whether the file turns the sandbox off. The environment, where it speaks,
/// decides instead.
pub fn sandbox_disabled(behavior: &BehaviorCfg, env: &Env) -> (r: bool)
    ensures
        r == (behavior.sandbox == Some(false) && var(env@, "HOTL_SANDBOX"@) is None),
{
    match behavior.sandbox {
        Some(false) => env.get("HOTL_SANDBOX").is_none(),
        _ => false,
    }
}

/// Whether commands may run without asking: the write floor holds, and so does
/// whatever restriction on egress is configured.
pub fn sandbox_enforced(floor_enforced: bool, egress_backed: bool) -> (r: bool)
    ensures
        r == (floor_enforced && egress_backed),
{
    floor_enforced && egress_backed
}

/// The key that a helper printed at startup; a fixed key is not kept here.
pub fn initial_helper_key(key: Option<String>, refreshable: bool) -> (r: Option<String>)
    ensures
        r == (if refreshable {
            key
        } else {
            None
        }),
{
    if refreshable {
        key
    } else {
        None
    }
}

/// The first `n` texts as warnings.
pub open spec fn marked(v: Seq<Seq<char>>, n: nat) -> Seq<Seq<char>>
    decreases n,
{
    if n == 0 {
        Seq::empty()
    } else {
        marked(v, (n - 1) as nat).push("WARNING — "@ + v[n - 1])
    }
}

/// The warnings of a start, in order: the sandbox's and egress's, marked, then
/// the runtime's and those of discovery as they are.
pub open spec fn warnings_of_start(
    sandbox: Seq<Seq<char>>,
    egress: Option<Seq<char>>,
    runtime: Option<Seq<char>>,
    discovery: Seq<Seq<char>>,
) -> Seq<Seq<char>> {
    let a = marked(sandbox, sandbox.len());
    let b = match egress {
        Some(w) => a.push("WARNING — "@ + w),
        None => a,
    };
    let c = match runtime {
        Some(w) => b.push(w),
        None => b,
    };
    c + discovery
}

fn push_text(v: &mut Vec<String>, s: String)
    ensures
        texts(final(v)@) == texts(old(v)@).push(s@),
{
    let ghost before = texts(v@);
    v.push(s);
    assert(texts(v@) =~= before.push(s@));
}

fn warning(w: &str) -> (r: String)
    ensures
        r@ == "WARNING — "@ + w@,
{
    let mut s = "WARNING — ".to_owned();
    s.append(w);
    s
}

/// The warnings of a start, collected and not printed.
pub fn startup_warnings(
    sandbox: &[String],
    egress: Option<&str>,
    runtime: Option<&str>,
    discovery: &[String],
) -> (r: Vec<String>)
    ensures
        texts(r@) == warnings_of_start(
            texts(sandbox@),
            opt_str(egress),
            opt_str(runtime),
            texts(discovery@),
        ),
{
    let mut out: Vec<String> = Vec::new();
    let ghost box_all = texts(sandbox@);
    let ghost found = texts(discovery@);
    assert(texts(out@) =~= Seq::empty());
    let mut i: usize = 0;
    while i < sandbox.len()
        invariant
            0 <= i <= sandbox.len(),
            box_all == texts(sandbox@),
            texts(out@) == marked(box_all, i as nat),
        decreases sandbox.len() - i,
    {
        assert(box_all[i as int] == sandbox@[i as int]@);
        push_text(&mut out, warning(sandbox[i].as_str()));
        i = i + 1;
    }
    if let Some(w) = egress {
        push_text(&mut out, warning(w));
    }
    if let Some(w) = runtime {
        push_text(&mut out, w.to_owned());
    }
    let ghost head = texts(out@);
    let mut j: usize = 0;
    assert(head + found.take(0) =~= head);
    while j < discovery.len()
        invariant
            0 <= j <= discovery.len(),
            found == texts(discovery@),
            texts(out@) == head + found.take(j as int),
        decreases discovery.len() - j,
    {
        assert(found[j as int] == discovery@[j as int]@);
        push_text(&mut out, discovery[j].clone());
        assert(found.take(j + 1) =~= found.take(j as int).push(found[j as int]));
        j = j + 1;
        assert(texts(out@) =~= head + found.take(j as int));
    }
    assert(found.take(j as int) =~= found);
    out
}

/// What became of the administrator's rule file.
#[derive(Debug)]
pub enum AdminFile {
    Absent,
    Merged,
    Refused(String),
}

/// What is said when the rules are loaded, in order: an unreadable rule
/// section, the permission mode's own warning, a refused bypass, a refused
/// administrator's file, and what the rules themselves are warned of.
pub open spec fn rule_warnings_of(
    unreadable: Option<Seq<char>>,
    resolved: ResolvedPermissions,
    strict: bool,
    admin_path: Seq<char>,
    admin: AdminFile,
    lint: Seq<Seq<char>>,
) -> Seq<Seq<char>> {
    let a = match unreadable {
        Some(e) => seq!["config.toml [[allow]] ignored: "@ + e],
        None => Seq::empty(),
    };
    let b = match opt_text(resolved.warning) {
        Some(w) => a.push(w),
        None => a,
    };
    let c = if strict && resolved.mode == PermissionMode::Bypass {
        b.push(
            "permissions.mode=bypass requested, but this is a security-enforced build — per-action asks stay on"@,
        )
    } else {
        b
    };
    let d = match admin {
        AdminFile::Refused(why) => c.push(
            "preapproved rules at "@ + admin_path + " refused: "@ + why@,
        ),
        _ => c,
    };
    d + lint
}

/// What is said when the rules are loaded.
pub fn rule_warnings(
    unreadable: Option<&str>,
    resolved: &ResolvedPermissions,
    strict: bool,
    admin_path: &str,
    admin: &AdminFile,
    lint: &[String],
) -> (r: Vec<String>)
    ensures
        texts(r@) == rule_warnings_of(
            opt_str(unreadable),
            *resolved,
            strict,
            admin_path@,
            *admin,
            texts(lint@),
        ),
{
    let mut out: Vec<String> = Vec::new();
    assert(texts(out@) =~= Seq::empty());
    if let Some(e) = unreadable {
        let mut s = "config.toml [[allow]] ignored: ".to_owned();
        s.append(e);
        push_text(&mut out, s);
        assert(texts(out@) =~= seq!["config.toml [[allow]] ignored: "@ + e@]);
    }
    if let Some(w) = &resolved.warning {
        push_text(&mut out, w.clone());
    }
    if strict && resolved.mode == PermissionMode::Bypass {
        push_text(
            &mut out,
            "permissions.mode=bypass requested, but this is a security-enforced build — per-action asks stay on".to_owned(),
        );
    }
    if let AdminFile::Refused(why) = admin {
        let mut s = "preapproved rules at ".to_owned();
        s.append(admin_path);
        s.append(" refused: ");
        s.append(why.as_str());
        push_text(&mut out, s);
    }
    let ghost head = texts(out@);
    let ghost found = texts(lint@);
    let mut j: usize = 0;
    assert(head + found.take(0) =~= head);
    while j < lint.len()
        invariant
            0 <= j <= lint.len(),
            found == texts(lint@),
            texts(out@) == head + found.take(j as int),
        decreases lint.len() - j,
    {
        assert(found[j as int] == lint@[j as int]@);
        push_text(&mut out, lint[j].clone());
        assert(found.take(j + 1) =~= found.take(j as int).push(found[j as int]));
        j = j + 1;
        assert(texts(out@) =~= head + found.take(j as int));
    }
    assert(found.take(j as int) =~= found);
    out
}

/// Where the administrator's rules lie: where the environment says, else at
/// the fixed place.
pub fn admin_rules_path(env: &Env) -> (r: String)
    ensures
        r@ == (match var(env@, "HOTL_PREAPPROVED"@) {
            Some(p) => p,
            None => "/etc/hotl/preapproved.toml"@,
        }),
{
    match env.get("HOTL_PREAPPROVED") {
        Some(p) => p.to_owned(),
        None => "/etc/hotl/preapproved.toml".to_owned(),
    }
}

/// What is said of a `[minify]` section that cannot be read.
pub fn minify_warning(error: Option<&str>) -> (r: Option<String>)
    ensures
        opt_text(r) == (match opt_str(error) {
            Some(e) => Some("[minify] section ignored ("@ + e + "); using defaults"@),
            None => None,
        }),
{
    match error {
        Some(e) => {
            let mut s = "[minify] section ignored (".to_owned();
            s.append(e);
            s.append("); using defaults");
            Some(s)
        },
        None => None,
    }
}

/// A tool that joins the built-in ones.
#[derive(Debug, Clone, Copy, PartialEq, Eq, Structural)]
pub enum ExtraTool {
    Mcp,
    Skills,
    Recall,
    WebFetch,
    WebSearch,
}

/// The tools that join the built-in ones, in order. Fetching is always there;
/// each other only where something backs it.
pub open spec fn tools_joined(
    mcp_servers: nat,
    skills: bool,
    recall_backends: nat,
    web_search: bool,
) -> Seq<ExtraTool> {
    let a = if mcp_servers > 0 {
        seq![ExtraTool::Mcp]
    } else {
        Seq::empty()
    };
    let b = if skills {
        a.push(ExtraTool::Skills)
    } else {
        a
    };
    let c = if recall_backends > 0 {
        b.push(ExtraTool::Recall)
    } else {
        b
    };
    let d = c.push(ExtraTool::WebFetch);
    if web_search {
        d.push(ExtraTool::WebSearch)
    } else {
        d
    }
}

/// The tools that join the built-in ones.
pub fn extra_tools(
    mcp_servers: usize,
    skills: bool,
    recall_backends: usize,
    web_search: bool,
) -> (r: Vec<ExtraTool>)
    ensures
        r@ == tools_joined(mcp_servers as nat, skills, recall_backends as nat, web_search),
        r@.contains(ExtraTool::WebFetch),
        r@.contains(ExtraTool::WebSearch) == web_search,
{
    let mut v: Vec<ExtraTool> = Vec::new();
    if mcp_servers > 0 {
        v.push(ExtraTool::Mcp);
    }
    if skills {
        v.push(ExtraTool::Skills);
    }
    if recall_backends > 0 {
        v.push(ExtraTool::Recall);
    }
    v.push(ExtraTool::WebFetch);
    let ghost at = v@.len() - 1;
    if web_search {
        v.push(ExtraTool::WebSearch);
        assert(v@[v@.len() - 1] == ExtraTool::WebSearch);
    }
    assert(v@[at] == ExtraTool::WebFetch);
    assert(v@ =~= tools_joined(mcp_servers as nat, skills, recall_backends as nat, web_search));
    v
}

/// The key of the search backend: what the named variable holds, unless it is
/// blank.
pub fn search_key(env: &Env, api_key_env: Option<&str>) -> (r: Option<String>)
    ensures
        opt_text(r) == (match opt_str(api_key_env) {
            Some(name) => match var(env@, name) {
                Some(v) => if trimmed(v).len() == 0 {
                    None
                } else {
                    Some(v)
                },
                None => None,
            },
            None => None,
        }),
{
    match api_key_env {
        Some(name) => match env.get(name) {
            Some(v) => {
                if blank(v) {
                    None
                } else {
                    Some(v.to_owned())
                }
            },
            None => None,
        },
        None => None,
    }
}

/// The logs other than `current` among the first `n`.
pub open spec fn earlier_logs(v: Seq<Seq<char>>, current: Seq<char>, n: nat) -> Seq<Seq<char>>
    decreases n,
{
    if n == 0 {
        Seq::empty()
    } else if v[n - 1] == current {
        earlier_logs(v, current, (n - 1) as nat)
    } else {
        earlier_logs(v, current, (n - 1) as nat).push(v[n - 1])
    }
}

/// What is said of earlier logs that hold what is a secret now. The current
/// session's log is masked and does not count.
pub fn secret_audit(logs: &[String], current: &str) -> (r: Option<String>)
    ensures
        ({
            let hits = earlier_logs(texts(logs@), current@, logs@.len());
            opt_text(r) == (if hits.len() == 0 {
                None
            } else {
                Some(
                    "WARNING — "@ + decimal_of(hits.len())
                        + " earlier session log(s) contain values that are now secrets (written before masking could apply). Rotate those secrets. First: "@
                        + hits[0],
                )
            })
        }),
{
    let ghost all = texts(logs@);
    let mut hits: Vec<String> = Vec::new();
    assert(texts(hits@) =~= Seq::empty());
    let mut i: usize = 0;
    while i < logs.len()
        invariant
            0 <= i <= logs.len(),
            all == texts(logs@),
            texts(hits@) == earlier_logs(all, current@, i as nat),
        decreases logs.len() - i,
    {
        assert(all[i as int] == logs@[i as int]@);
        if !same(logs[i].as_str(), current) {
            push_text(&mut hits, logs[i].clone());
        }
        i = i + 1;
    }
    assert(texts(hits@).len() == hits@.len());
    if hits.len() == 0 {
        return None;
    }
    assert(texts(hits@)[0] == hits@[0]@);
    let mut s = "WARNING — ".to_owned();
    s.append(decimal(hits.len() as u64).as_str());
    s.append(
        " earlier session log(s) contain values that are now secrets (written before masking could apply). Rotate those secrets. First: ",
    );
    s.append(hits[0].as_str());
    Some(s)
}

proof fn flags_differ()
    ensures
        "-p"@ != "--print"@,
        "-p"@ != "--json"@,
        "-p"@ != "--plan"@,
        "-p"@ != "--json-schema"@,
        "-p"@ != "--fork-from"@,
        "-p"@ != "--keep"@,
        "-p"@ != "--keep-turns"@,
        "-p"@ != "-n"@,
        "-p"@ != "--name"@,
        "-p"@ != "-"@,
        "--print"@ != "--json"@,
        "--print"@ != "--plan"@,
        "--print"@ != "--json-schema"@,
        "--print"@ != "--fork-from"@,
        "--print"@ != "--keep"@,
        "--print"@ != "--keep-turns"@,
        "--print"@ != "-n"@,
        "--print"@ != "--name"@,
        "--print"@ != "-"@,
        "--json"@ != "--plan"@,
        "--json"@ != "--json-schema"@,
        "--json"@ != "--fork-from"@,
        "--json"@ != "--keep"@,
        "--json"@ != "--keep-turns"@,
        "--json"@ != "-n"@,
        "--json"@ != "--name"@,
        "--json"@ != "-"@,
        "--plan"@ != "--json-schema"@,
        "--plan"@ != "--fork-from"@,
        "--plan"@ != "--keep"@,
        "--plan"@ != "--keep-turns"@,
        "--plan"@ != "-n"@,
        "--plan"@ != "--name"@,
        "--plan"@ != "-"@,
        "--json-schema"@ != "--fork-from"@,
        "--json-schema"@ != "--keep"@,
        "--json-schema"@ != "--keep-turns"@,
        "--json-schema"@ != "-n"@,
        "--json-schema"@ != "--name"@,
        "--json-schema"@ != "-"@,
        "--fork-from"@ != "--keep"@,
        "--fork-from"@ != "--keep-turns"@,
        "--fork-from"@ != "-n"@,
        "--fork-from"@ != "--name"@,
        "--fork-from"@ != "-"@,
        "--keep"@ != "--keep-turns"@,
        "--keep"@ != "-n"@,
        "--keep"@ != "--name"@,
        "--keep"@ != "-"@,
        "--keep-turns"@ != "-n"@,
        "--keep-turns"@ != "--name"@,
        "--keep-turns"@ != "-"@,
        "-n"@ != "--name"@,
        "-n"@ != "-"@,
        "--name"@ != "-"@,
        "watch"@ != "fleet"@,
        "watch"@ != "doctor"@,
        "watch"@ != "update"@,
        "watch"@ != "--help"@,
        "watch"@ != "-h"@,
        "watch"@ != "help"@,
        "fleet"@ != "doctor"@,
        "fleet"@ != "update"@,
        "fleet"@ != "--help"@,
        "fleet"@ != "-h"@,
        "fleet"@ != "help"@,
        "doctor"@ != "update"@,
        "doctor"@ != "--help"@,
        "doctor"@ != "-h"@,
        "doctor"@ != "help"@,
        "update"@ != "--help"@,
        "update"@ != "-h"@,
        "update"@ != "help"@,
        "--help"@ != "-h"@,
        "--help"@ != "help"@,
        "-h"@ != "help"@,
{
    reveal_strlit("-p");
    reveal_strlit("--print");
    reveal_strlit("--json");
    reveal_strlit("--plan");
    reveal_strlit("--json-schema");
    reveal_strlit("--fork-from");
    reveal_strlit("--keep");
    reveal_strlit("--keep-turns");
    reveal_strlit("-n");
    reveal_strlit("--name");
    reveal_strlit("-");
    reveal_strlit("watch");
    reveal_strlit("fleet");
    reveal_strlit("doctor");
    reveal_strlit("update");
    reveal_strlit("--help");
    reveal_strlit("-h");
    reveal_strlit("help");
    assert("-p"@.len() != "--print"@.len());
    assert("-p"@.len() != "--json"@.len());
    assert("-p"@.len() != "--plan"@.len());
    assert("-p"@.len() != "--json-schema"@.len());
    assert("-p"@.len() != "--fork-from"@.len());
    assert("-p"@.len() != "--keep"@.len());
    assert("-p"@.len() != "--keep-turns"@.len());
    assert("-p"@[1] != "-n"@[1]);
    assert("-p"@.len() != "--name"@.len());
    assert("-p"@.len() != "-"@.len());
    assert("--print"@.len() != "--json"@.len());
    assert("--print"@.len() != "--plan"@.len());
    assert("--print"@.len() != "--json-schema"@.len());
    assert("--print"@.len() != "--fork-from"@.len());
    assert("--print"@.len() != "--keep"@.len());
    assert("--print"@.len() != "--keep-turns"@.len());
    assert("--print"@.len() != "-n"@.len());
    assert("--print"@.len() != "--name"@.len());
    assert("--print"@.len() != "-"@.len());
    assert("--json"@[2] != "--plan"@[2]);
    assert("--json"@.len() != "--json-schema"@.len());
    assert("--json"@.len() != "--fork-from"@.len());
    assert("--json"@[2] != "--keep"@[2]);
    assert("--json"@.len() != "--keep-turns"@.len());
    assert("--json"@.len() != "-n"@.len());
    assert("--json"@[2] != "--name"@[2]);
    assert("--json"@.len() != "-"@.len());
    assert("--plan"@.len() != "--json-schema"@.len());
    assert("--plan"@.len() != "--fork-from"@.len());
    assert("--plan"@[2] != "--keep"@[2]);
    assert("--plan"@.len() != "--keep-turns"@.len());
    assert("--plan"@.len() != "-n"@.len());
    assert("--plan"@[2] != "--name"@[2]);
    assert("--plan"@.len() != "-"@.len());
    assert("--json-schema"@.len() != "--fork-from"@.len());
    assert("--json-schema"@.len() != "--keep"@.len());
    assert("--json-schema"@.len() != "--keep-turns"@.len());
    assert("--json-schema"@.len() != "-n"@.len());
    assert("--json-schema"@.len() != "--name"@.len());
    assert("--json-schema"@.len() != "-"@.len());
    assert("--fork-from"@.len() != "--keep"@.len());
    assert("--fork-from"@.len() != "--keep-turns"@.len());
    assert("--fork-from"@.len() != "-n"@.len());
    assert("--fork-from"@.len() != "--name"@.len());
    assert("--fork-from"@.len() != "-"@.len());
    assert("--keep"@.len() != "--keep-turns"@.len());
    assert("--keep"@.len() != "-n"@.len());
    assert("--keep"@[2] != "--name"@[2]);
    assert("--keep"@.len() != "-"@.len());
    assert("--keep-turns"@.len() != "-n"@.len());
    assert("--keep-turns"@.len() != "--name"@.len());
    assert("--keep-turns"@.len() != "-"@.len());
    assert("-n"@.len() != "--name"@.len());
    assert("-n"@.len() != "-"@.len());
    assert("--name"@.len() != "-"@.len());
    assert("watch"@[0] != "fleet"@[0]);
    assert("watch"@.len() != "doctor"@.len());
    assert("watch"@.len() != "update"@.len());
    assert("watch"@.len() != "--help"@.len());
    assert("watch"@.len() != "-h"@.len());
    assert("watch"@.len() != "help"@.len());
    assert("fleet"@.len() != "doctor"@.len());
    assert("fleet"@.len() != "update"@.len());
    assert("fleet"@.len() != "--help"@.len());
    assert("fleet"@.len() != "-h"@.len());
    assert("fleet"@.len() != "help"@.len());
    assert("doctor"@[0] != "update"@[0]);
    assert("doctor"@[0] != "--help"@[0]);
    assert("doctor"@.len() != "-h"@.len());
    assert("doctor"@.len() != "help"@.len());
    assert("update"@[0] != "--help"@[0]);
    assert("update"@.len() != "-h"@.len());
    assert("update"@.len() != "help"@.len());
    assert("--help"@.len() != "-h"@.len());
    assert("--help"@.len() != "help"@.len());
    assert("-h"@.len() != "help"@.len());
}

/// The first word names the command; two are reserved, and any other word, or none,
/// starts the agent.
pub proof fn the_first_word_is_the_command(args: Seq<Seq<char>>)
    ensures
        args.len() == 0 ==> command_meant(args) == CommandV::Agent,
        args.len() > 0 ==> {
            let w = args[0];
            let c = command_meant(args);
            &&& c == CommandV::Watch <==> w == "watch"@
            &&& c == CommandV::Fleet <==> w == "fleet"@
            &&& c is Reserved <==> w == "doctor"@ || w == "update"@
            &&& c matches CommandV::Reserved(x) ==> x == w
            &&& c == CommandV::Help <==> w == "--help"@ || w == "-h"@ || w == "help"@
        },
{
    flags_differ();
}

/// Each flag sets what it names to what follows it, and the rest is read as if it
/// stood alone; nothing else changes.
pub proof fn flags_set_what_they_name(
    flag: Seq<char>,
    value: Seq<char>,
    rest: Seq<Seq<char>>,
    a: ArgsV,
    n: usize,
)
    ensures
        flag == "--json"@ ==> read_args(seq![flag] + rest, a) == read_args(
            rest,
            ArgsV { json_events: true, ..a },
        ),
        flag == "--plan"@ ==> read_args(seq![flag] + rest, a) == read_args(
            rest,
            ArgsV { plan: true, ..a },
        ),
        flag == "--json-schema"@ ==> read_args(seq![flag, value] + rest, a) == read_args(
            rest,
            ArgsV { schema: Some(value), ..a },
        ),
        flag == "--fork-from"@ ==> read_args(seq![flag, value] + rest, a) == read_args(
            rest,
            ArgsV { fork_from: Some(value), ..a },
        ),
        flag == "--keep"@ && value == decimal_of(n as nat) ==> read_args(
            seq![flag, value] + rest,
            a,
        ) == read_args(rest, ArgsV { keep: Some(n), ..a }),
        flag == "--keep-turns"@ && value == decimal_of(n as nat) ==> read_args(
            seq![flag, value] + rest,
            a,
        ) == read_args(rest, ArgsV { keep_turns: Some(n), ..a }),
        (flag == "-n"@ || flag == "--name"@) && 1 <= trimmed(value).len() <= 64 ==> read_args(
            seq![flag, value] + rest,
            a,
        ) == read_args(rest, ArgsV { name: Some(trimmed(value)), ..a }),
        (flag == "-p"@ || flag == "--print"@) && (value.len() == 0 || value[0] != '-') ==> read_args(
            seq![flag, value] + rest,
            a,
        ) == read_args(rest, ArgsV { prompt: Some(PromptV::Text(value)), ..a }),
        (flag == "-p"@ || flag == "--print"@) && value == "-"@ ==> read_args(
            seq![flag, value] + rest,
            a,
        ) == read_args(rest, ArgsV { prompt: Some(PromptV::Stdin), ..a }),
        (flag == "-p"@ || flag == "--print"@) && value != "-"@ && value.len() > 0 && value[0] == '-'
            ==> read_args(seq![flag, value] + rest, a) == read_args(
            seq![value] + rest,
            ArgsV { prompt: Some(PromptV::Stdin), ..a },
        ),
{
    flags_differ();
    reveal_strlit("-");
    crate::text::numerals_read_back(n as nat, usize::MAX as nat, 0);
    let one = seq![flag] + rest;
    let two = seq![flag, value] + rest;
    assert(one.skip(1) =~= rest);
    assert(two.skip(1) =~= seq![value] + rest);
    assert(two.skip(1).skip(1) =~= rest);
}

/// A word that is no flag is refused by its name, and so is a flag without the value
/// that it needs, a number that is none, and a name that is none.
pub proof fn wrong_words_are_refused(
    word: Seq<char>,
    value: Seq<char>,
    rest: Seq<Seq<char>>,
    a: ArgsV,
)
    ensures
        word != "-p"@ && word != "--print"@ && word != "--json"@ && word != "--plan"@ && word
            != "--json-schema"@ && word != "--fork-from"@ && word != "--keep"@ && word
            != "--keep-turns"@ && word != "-n"@ && word != "--name"@ ==> read_args(
            seq![word] + rest,
            a,
        ) == Err::<ArgsV, UsageErrorV>(UsageErrorV::Unknown(word)),
        word == "--fork-from"@ || word == "--keep"@ || word == "--keep-turns"@ ==> read_args(
            seq![word],
            a,
        ) == Err::<ArgsV, UsageErrorV>(UsageErrorV::NeedsValue(word)),
        (word == "--keep"@ || word == "--keep-turns"@) && parsed_unsigned(value, usize::MAX as nat)
            is None ==> read_args(seq![word, value] + rest, a) == Err::<ArgsV, UsageErrorV>(
            UsageErrorV::NotANumber(word, value),
        ),
        (word == "-n"@ || word == "--name"@) && !(1 <= trimmed(value).len() <= 64) ==> read_args(
            seq![word, value] + rest,
            a,
        ) == Err::<ArgsV, UsageErrorV>(UsageErrorV::BadName),
{
    flags_differ();
    let one = seq![word] + rest;
    let two = seq![word, value] + rest;
    assert(one.skip(1) =~= rest);
    assert(two.skip(1) =~= seq![value] + rest);
    assert(seq![word].skip(1) =~= Seq::empty());
}

/// Arguments that go together are taken as they were read, and nothing else is: a
/// schema needs a prompt and no fork, and a prefix needs a fork and one coordinate.
pub proof fn arguments_go_together(args: Seq<Seq<char>>)
    ensures
        parsed_args(args) matches Ok(a) ==> {
            &&& read_args(args, no_args()) == Ok::<ArgsV, UsageErrorV>(a)
            &&& a.schema is Some ==> a.prompt is Some && a.fork_from is None
            &&& a.keep is Some || a.keep_turns is Some ==> a.fork_from is Some
            &&& a.keep is None || a.keep_turns is None
        },
        read_args(args, no_args()) matches Ok(a) ==> (parsed_args(args) is Ok <==> (a.schema is Some
            ==> a.prompt is Some && a.fork_from is None) && (a.keep is Some || a.keep_turns is Some
            ==> a.fork_from is Some) && (a.keep is None || a.keep_turns is None)),
        no_args() == (ArgsV {
            prompt: None,
            json_events: false,
            schema: None,
            name: None,
            plan: false,
            fork_from: None,
            keep: None,
            keep_turns: None,
        }),
{
}

/// A refusal names the flag or the word that it is about.
pub proof fn refusals_name_the_word(flag: Seq<char>, raw: Seq<char>)
    ensures
        flag.is_prefix_of(usage_message(UsageErrorV::NeedsValue(flag))),
        flag.is_prefix_of(usage_message(UsageErrorV::NotANumber(flag, raw))),
        crate::text::occurs(usage_message(UsageErrorV::NotANumber(flag, raw)), raw),
        crate::text::occurs(usage_message(UsageErrorV::Unknown(raw)), raw),
{
    let a = usage_message(UsageErrorV::NeedsValue(flag));
    let b = usage_message(UsageErrorV::NotANumber(flag, raw));
    let c = usage_message(UsageErrorV::Unknown(raw));
    assert(a.take(flag.len() as int) =~= flag);
    assert(b.take(flag.len() as int) =~= flag);
    let k = (flag + " needs a non-negative whole number, got `"@).len() as int;
    assert(b.subrange(k, k + raw.len()) =~= raw);
    assert(crate::text::occurs_at(b, raw, k));
    let m = "unknown argument `"@.len() as int;
    assert(c.subrange(m, m + raw.len()) =~= raw);
    assert(crate::text::occurs_at(c, raw, m));
}

/// A prompt is what was typed or piped, as it is; a blank one is none, and so is one
/// that a terminal or a failed read was to give.
pub proof fn prompts_are_what_was_given(text: Seq<char>, piped: Piped)
    ensures
        trimmed(text).len() > 0 ==> prompt_text(PromptV::Text(text), piped) == Ok::<
            Seq<char>,
            Seq<char>,
        >(text),
        trimmed(text).len() == 0 ==> prompt_text(PromptV::Text(text), piped) is Err,
        piped matches Piped::Text(t) ==> (if trimmed(t@).len() > 0 {
            prompt_text(PromptV::Stdin, piped) == Ok::<Seq<char>, Seq<char>>(t@)
        } else {
            prompt_text(PromptV::Stdin, piped) is Err
        }),
        !(piped is Text) ==> prompt_text(PromptV::Stdin, piped) is Err,
        piped matches Piped::Failed(e) ==> (prompt_text(PromptV::Stdin, piped) matches Err(w)
            && e@.is_suffix_of(w)),
{
    if let Piped::Failed(e) = piped {
        let w = "could not read the prompt from stdin: "@ + e@;
        assert(w.skip(w.len() - e@.len()) =~= e@);
    }
}

/// A number in the environment comes before the file's, and the file's before the
/// default; text there that is no number is passed over.
pub proof fn the_nearest_number_wins(
    vars: Seq<(Seq<char>, Seq<char>)>,
    name: Seq<char>,
    n: u64,
    z: i64,
    default: u64,
    turns: i64,
)
    ensures
        var(vars, name) == Some(decimal_of(n as nat)) ==> forall|c: Option<u64>|
            #[trigger] number_knob(vars, name, c, default) == n,
        var(vars, name) is None || parsed_unsigned(var(vars, name)->0, u64::MAX as nat) is None ==> (
        number_knob(vars, name, Some(n), default) == n && number_knob(vars, name, None, default)
            == default),
        var(vars, "HOTL_MAX_TURNS"@) == Some(crate::text::signed_decimal_of(z as int)) ==> forall|
            c: Option<i64>,
        | #[trigger] turns_knob(vars, c, turns) == z,
        var(vars, "HOTL_MAX_TURNS"@) is None || parsed_signed(var(vars, "HOTL_MAX_TURNS"@)->0)
            is None ==> turns_knob(vars, Some(z), turns) == z && turns_knob(vars, None, turns)
            == turns,
        n <= usize::MAX && var(vars, name) == Some(decimal_of(n as nat)) ==> forall|c: Option<usize>|
            #[trigger] size_knob(vars, name, c) == Some(n as usize),
        var(vars, name) is None || parsed_unsigned(var(vars, name)->0, usize::MAX as nat) is None
            ==> forall|c: Option<usize>| #[trigger] size_knob(vars, name, c) == c,
{
    crate::text::numerals_read_back(n as nat, u64::MAX as nat, z as int);
    if n <= usize::MAX {
        crate::text::numerals_read_back(n as nat, usize::MAX as nat, z as int);
    }
}

/// A limit is what is set where that is more than nothing, else the default.
pub proof fn limits_are_positive_or_default(n: usize, default: usize)
    ensures
        n > 0 ==> limit_of(Some(n), default) == n,
        limit_of(Some(0), default) == default,
        limit_of(None, default) == default,
{
}

/// Every warning of the start is told, in order: the sandbox's, the network's, the
/// runtime's and the discovery's; the first two are marked as warnings.
pub proof fn every_start_warning_is_told(
    sandbox: Seq<Seq<char>>,
    egress: Option<Seq<char>>,
    runtime: Option<Seq<char>>,
    discovery: Seq<Seq<char>>,
)
    ensures
        ({
            let all = warnings_of_start(sandbox, egress, runtime, discovery);
            let e: int = if egress is Some {
                1
            } else {
                0
            };
            let r: int = if runtime is Some {
                1
            } else {
                0
            };
            &&& all.len() == sandbox.len() + e + r + discovery.len()
            &&& forall|i: int|
                0 <= i < sandbox.len() ==> #[trigger] all[i] == "WARNING — "@ + sandbox[i]
            &&& egress matches Some(w) ==> all[sandbox.len() as int] == "WARNING — "@ + w
            &&& runtime matches Some(w) ==> all[sandbox.len() + e] == w
            &&& forall|i: int|
                0 <= i < discovery.len() ==> #[trigger] all[sandbox.len() + e + r + i]
                    == discovery[i]
        }),
{
    marks_all(sandbox, sandbox.len());
}

proof fn marks_all(v: Seq<Seq<char>>, n: nat)
    requires
        n <= v.len(),
    ensures
        marked(v, n).len() == n,
        forall|i: int| 0 <= i < n ==> #[trigger] marked(v, n)[i] == "WARNING — "@ + v[i],
    decreases n,
{
    if n > 0 {
        marks_all(v, (n - 1) as nat);
    }
}

/// Every warning of the rules is told, and none is made up: an unreadable list, a mode
/// that is none, a bypass that is refused, and a refused file of the administrator's,
/// each where there is one, and next what the rules themselves give rise to.
pub proof fn every_rule_warning_is_told(
    unreadable: Option<Seq<char>>,
    resolved: ResolvedPermissions,
    strict: bool,
    admin_path: Seq<char>,
    admin: AdminFile,
    lint: Seq<Seq<char>>,
)
    ensures
        ({
            let all = rule_warnings_of(unreadable, resolved, strict, admin_path, admin, lint);
            let a: int = if unreadable is Some {
                1
            } else {
                0
            };
            let b: int = if resolved.warning is Some {
                1
            } else {
                0
            };
            let c: int = if strict && resolved.mode == PermissionMode::Bypass {
                1
            } else {
                0
            };
            let d: int = if admin is Refused {
                1
            } else {
                0
            };
            &&& all.len() == a + b + c + d + lint.len()
            &&& unreadable matches Some(e) ==> e.is_suffix_of(all[0])
            &&& resolved.warning matches Some(w) ==> all[a] == w@
            &&& admin matches AdminFile::Refused(why) ==> why@.is_suffix_of(all[a + b + c])
                && crate::text::occurs(all[a + b + c], admin_path)
            &&& forall|i: int| 0 <= i < lint.len() ==> #[trigger] all[a + b + c + d + i] == lint[i]
        }),
{
    if let Some(e) = unreadable {
        let w = "config.toml [[allow]] ignored: "@ + e;
        assert(w.skip(w.len() - e.len()) =~= e);
    }
    if let AdminFile::Refused(why) = admin {
        let w = "preapproved rules at "@ + admin_path + " refused: "@ + why@;
        assert(w.skip(w.len() - why@.len()) =~= why@);
        let k = "preapproved rules at "@.len() as int;
        assert(w.subrange(k, k + admin_path.len()) =~= admin_path);
        assert(crate::text::occurs_at(w, admin_path, k));
    }
}

/// A tool joins where there is something for it to work on; the fetching one always
/// does.
pub proof fn tools_join_where_they_have_work(
    servers: nat,
    skills: bool,
    backends: nat,
    search: bool,
)
    ensures
        ({
            let all = tools_joined(servers, skills, backends, search);
            &&& all.contains(ExtraTool::Mcp) <==> servers > 0
            &&& all.contains(ExtraTool::Skills) <==> skills
            &&& all.contains(ExtraTool::Recall) <==> backends > 0
            &&& all.contains(ExtraTool::WebFetch)
            &&& all.contains(ExtraTool::WebSearch) <==> search
            &&& all.no_duplicates()
        }),
{
    let all = tools_joined(servers, skills, backends, search);
    let m: int = if servers > 0 {
        1
    } else {
        0
    };
    let s: int = if skills {
        1
    } else {
        0
    };
    let r: int = if backends > 0 {
        1
    } else {
        0
    };
    assert(servers > 0 ==> all[0] == ExtraTool::Mcp);
    assert(skills ==> all[m] == ExtraTool::Skills);
    assert(backends > 0 ==> all[m + s] == ExtraTool::Recall);
    assert(all[m + s + r] == ExtraTool::WebFetch);
    assert(search ==> all[m + s + r + 1] == ExtraTool::WebSearch);
}

/// The audit reads every log but the session's own, in order.
pub proof fn earlier_logs_are_the_others(v: Seq<Seq<char>>, current: Seq<char>, n: nat)
    requires
        n <= v.len(),
    ensures
        earlier_logs(v, current, n) == v.take(n as int).filter(|l: Seq<char>| l != current),
    decreases n,
{
    reveal(Seq::filter);
    if n > 0 {
        earlier_logs_are_the_others(v, current, (n - 1) as nat);
        assert(v.take(n as int).drop_last() =~= v.take(n - 1));
        assert(v.take(n as int).last() == v[n - 1]);
    }
}

} // verus!
