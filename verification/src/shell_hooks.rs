//! Shell hooks: commands of the owner's that run at six points of a session.
//!
//! A hook can block and can add context; it can never grant. What it answers
//! wrongly counts as no opinion, and after three failures it is not run again
//! in the session. Processes and pipes are worked by the caller.
use crate::config::pairs;
use crate::json::{field, json_text, no_members, parse_json, text_at, Json, JsonV};
use crate::text::{opt_str, opt_text, pieces, same, split, texts, trim, trimmed};
use vstd::prelude::*;
use vstd::string::*;
use vstd::utf8::*;

verus! {

/// How many failures evict a hook.
pub const MAX_STRIKES: u32 = 3;

/// How long a hook may run, in seconds.
pub const HOOK_TIMEOUT_SECS: u64 = 10;

/// How many bytes a hook may print.
pub const HOOK_MAX_OUTPUT: usize = 65536;

/// `String::from_utf8`: the text of bytes that are UTF-8, and nothing for
/// others.
#[verifier::external_body]
fn from_utf8(bytes: Vec<u8>) -> (r: Option<String>)
    ensures
        match r {
            Some(s) => valid_utf8(bytes@) && s@ == decode_utf8(bytes@),
            None => !valid_utf8(bytes@),
        },
{
    String::from_utf8(bytes).ok()
}

/// A configured hook, as it is read.
#[derive(Debug)]
pub struct HookSpec {
    pub event: String,
    pub command: String,
    pub matcher: Option<String>,
    pub env: Vec<(String, String)>,
}

/// Which tools a hook runs for.
#[derive(Debug, PartialEq, Eq)]
pub enum Matcher {
    All,
    Names(Vec<String>),
}

/// The view of a [`Matcher`].
#[verifier::ext_equal]
pub enum MatcherV {
    All,
    Names(Seq<Seq<char>>),
}

impl View for Matcher {
    type V = MatcherV;

    open spec fn view(&self) -> MatcherV {
        match *self {
            Matcher::All => MatcherV::All,
            Matcher::Names(v) => MatcherV::Names(texts(v@)),
        }
    }
}

/// The trimmed names among the first `n` that are not blank.
pub open spec fn named(v: Seq<Seq<char>>, n: nat) -> Seq<Seq<char>>
    decreases n,
{
    if n == 0 {
        Seq::empty()
    } else if trimmed(v[n - 1]).len() == 0 {
        named(v, (n - 1) as nat)
    } else {
        named(v, (n - 1) as nat).push(trimmed(v[n - 1]))
    }
}

/// The tools that a setting names: all of them for an asterisk, for nothing
/// and for a blank one; else those between the commas.
pub open spec fn matcher_of(raw: Option<Seq<char>>) -> MatcherV {
    match raw {
        None => MatcherV::All,
        Some(s) => {
            let t = trimmed(s);
            if t.len() == 0 || t == "*"@ {
                MatcherV::All
            } else {
                MatcherV::Names(named(pieces(t, ','), pieces(t, ',').len()))
            }
        },
    }
}

/// The tools that a setting names.
pub fn parse_matcher(raw: Option<&str>) -> (r: Matcher)
    ensures
        r@ == matcher_of(opt_str(raw)),
{
    let t = match raw {
        Some(s) => trim(s),
        None => {
            return Matcher::All;
        },
    };
    if t.is_empty() || same(t, "*") {
        return Matcher::All;
    }
    let parts = split(t, ',');
    let ghost all = pieces(t@, ',');
    assert(texts(parts@).len() == parts@.len());
    let mut names: Vec<String> = Vec::new();
    let mut i: usize = 0;
    assert(texts(names@) =~= Seq::empty());
    while i < parts.len()
        invariant
            0 <= i <= parts.len(),
            all == texts(parts@),
            texts(names@) == named(all, i as nat),
        decreases parts.len() - i,
    {
        assert(all[i as int] == parts@[i as int]@);
        let name = trim(parts[i].as_str());
        if !name.is_empty() {
            let ghost before = texts(names@);
            names.push(name.to_owned());
            assert(texts(names@) =~= before.push(name@));
        }
        i = i + 1;
    }
    Matcher::Names(names)
}

/// Whether a hook runs for a tool.
pub open spec fn covers(m: MatcherV, tool: Seq<char>) -> bool {
    match m {
        MatcherV::All => true,
        MatcherV::Names(v) => v.contains(tool),
    }
}

impl Matcher {
    /// Whether a hook runs for a tool.
    pub fn matches(&self, tool: &str) -> (r: bool)
        ensures
            r == covers(self@, tool@),
    {
        match self {
            Matcher::All => true,
            Matcher::Names(v) => {
                let ghost all = texts(v@);
                let mut i: usize = 0;
                while i < v.len()
                    invariant
                        0 <= i <= v.len(),
                        all == texts(v@),
                        self@ == MatcherV::Names(all),
                        forall|k: int| 0 <= k < i ==> (#[trigger] all[k]) != tool@,
                    decreases v.len() - i,
                {
                    assert(all[i as int] == v@[i as int]@);
                    if same(v[i].as_str(), tool) {
                        return true;
                    }
                    i = i + 1;
                }
                false
            },
        }
    }
}

/// A hook with its failures so far.
#[derive(Debug)]
pub struct ShellHook {
    pub command: String,
    pub env: Vec<(String, String)>,
    /// Which tools it runs for, where its event is about a tool.
    pub matcher: Matcher,
    pub strikes: u32,
}

/// The view of a [`ShellHook`].
#[verifier::ext_equal]
pub struct HookV {
    pub command: Seq<char>,
    pub env: Seq<(Seq<char>, Seq<char>)>,
    pub matcher: MatcherV,
    pub strikes: u32,
}

impl View for ShellHook {
    type V = HookV;

    open spec fn view(&self) -> HookV {
        HookV {
            command: self.command@,
            env: pairs(self.env@),
            matcher: self.matcher@,
            strikes: self.strikes,
        }
    }
}

/// The views of a list of hooks.
pub open spec fn hooks_view(v: Seq<ShellHook>) -> Seq<HookV> {
    Seq::new(v.len(), |i: int| v[i]@)
}

/// The hooks of a session, by the event that they run at.
#[derive(Debug)]
pub struct ShellHooks {
    pub pre: Vec<ShellHook>,
    pub post: Vec<ShellHook>,
    pub prompt: Vec<ShellHook>,
    pub notification: Vec<ShellHook>,
    pub stop: Vec<ShellHook>,
    pub session_end: Vec<ShellHook>,
}

/// A configured hook before it ever ran.
pub open spec fn fresh(s: HookSpec) -> HookV {
    HookV {
        command: s.command@,
        env: pairs(s.env@),
        matcher: matcher_of(opt_text(s.matcher)),
        strikes: 0,
    }
}

/// Those of the first `n` configured hooks that run at an event, in order.
pub open spec fn hooks_at(v: Seq<HookSpec>, event: Seq<char>, n: nat) -> Seq<HookV>
    decreases n,
{
    if n == 0 {
        Seq::empty()
    } else if v[n - 1].event@ == event {
        hooks_at(v, event, (n - 1) as nat).push(fresh(v[n - 1]))
    } else {
        hooks_at(v, event, (n - 1) as nat)
    }
}

fn add_hook(v: &mut Vec<ShellHook>, h: ShellHook)
    ensures
        hooks_view(final(v)@) == hooks_view(old(v)@).push(h@),
{
    let ghost before = hooks_view(v@);
    let ghost hv = h@;
    v.push(h);
    assert(hooks_view(v@) =~= before.push(hv));
}

/// The hooks by event; nothing where none of the six events has one. An event
/// that is not known is passed over.
pub fn load(specs: Vec<HookSpec>) -> (r: Option<ShellHooks>)
    ensures
        ({
            let n = specs@.len();
            let pre = hooks_at(specs@, "pre_tool"@, n);
            let post = hooks_at(specs@, "post_tool"@, n);
            let prompt = hooks_at(specs@, "user_prompt"@, n);
            let notification = hooks_at(specs@, "notification"@, n);
            let stop = hooks_at(specs@, "stop"@, n);
            let end = hooks_at(specs@, "session_end"@, n);
            match r {
                Some(h) => {
                    &&& hooks_view(h.pre@) == pre
                    &&& hooks_view(h.post@) == post
                    &&& hooks_view(h.prompt@) == prompt
                    &&& hooks_view(h.notification@) == notification
                    &&& hooks_view(h.stop@) == stop
                    &&& hooks_view(h.session_end@) == end
                    &&& pre.len() + post.len() + prompt.len() + notification.len() + stop.len()
                        + end.len() > 0
                },
                None => pre.len() == 0 && post.len() == 0 && prompt.len() == 0
                    && notification.len() == 0 && stop.len() == 0 && end.len() == 0,
            }
        }),
{
    proof {
        reveal_strlit("pre_tool");
        reveal_strlit("post_tool");
        reveal_strlit("user_prompt");
        reveal_strlit("notification");
        reveal_strlit("stop");
        reveal_strlit("session_end");
        assert("pre_tool"@.len() == 8 && "post_tool"@.len() == 9 && "notification"@.len() == 12
            && "stop"@.len() == 4);
        assert("user_prompt"@[0] == 'u' && "session_end"@[0] == 's');
    }
    let ghost all = specs@;
    let n: usize = specs.len();
    let mut rest = specs;
    let mut h = ShellHooks {
        pre: Vec::new(),
        post: Vec::new(),
        prompt: Vec::new(),
        notification: Vec::new(),
        stop: Vec::new(),
        session_end: Vec::new(),
    };
    assert(hooks_view(h.pre@) =~= Seq::empty());
    let mut i: usize = 0;
    while i < n
        invariant
            0 <= i <= n,
            n == all.len(),
            rest@ == all.skip(i as int),
            "pre_tool"@.len() == 8 && "post_tool"@.len() == 9 && "notification"@.len() == 12
                && "stop"@.len() == 4,
            "user_prompt"@.len() == 11 && "session_end"@.len() == 11,
            "user_prompt"@[0] == 'u' && "session_end"@[0] == 's',
            hooks_view(h.pre@) == hooks_at(all, "pre_tool"@, i as nat),
            hooks_view(h.post@) == hooks_at(all, "post_tool"@, i as nat),
            hooks_view(h.prompt@) == hooks_at(all, "user_prompt"@, i as nat),
            hooks_view(h.notification@) == hooks_at(all, "notification"@, i as nat),
            hooks_view(h.stop@) == hooks_at(all, "stop"@, i as nat),
            hooks_view(h.session_end@) == hooks_at(all, "session_end"@, i as nat),
        decreases n - i,
    {
        let spec = rest.remove(0);
        assert(spec == all[i as int]);
        assert(rest@ =~= all.skip(i + 1));
        let matcher = match &spec.matcher {
            Some(m) => parse_matcher(Some(m.as_str())),
            None => parse_matcher(None),
        };
        let hook = ShellHook { command: spec.command, env: spec.env, matcher, strikes: 0 };
        assert(hook@ == fresh(all[i as int]));
        let event = spec.event.as_str();
        if same(event, "pre_tool") {
            add_hook(&mut h.pre, hook);
        } else if same(event, "post_tool") {
            add_hook(&mut h.post, hook);
        } else if same(event, "user_prompt") {
            add_hook(&mut h.prompt, hook);
        } else if same(event, "notification") {
            add_hook(&mut h.notification, hook);
        } else if same(event, "stop") {
            add_hook(&mut h.stop, hook);
        } else if same(event, "session_end") {
            add_hook(&mut h.session_end, hook);
        }
        i = i + 1;
    }
    assert(hooks_view(h.pre@).len() == h.pre@.len());
    assert(hooks_view(h.post@).len() == h.post@.len());
    assert(hooks_view(h.prompt@).len() == h.prompt@.len());
    assert(hooks_view(h.notification@).len() == h.notification@.len());
    assert(hooks_view(h.stop@).len() == h.stop@.len());
    assert(hooks_view(h.session_end@).len() == h.session_end@.len());
    if h.pre.len() == 0 && h.post.len() == 0 && h.prompt.len() == 0 && h.notification.len() == 0
        && h.stop.len() == 0 && h.session_end.len() == 0 {
        return None;
    }
    Some(h)
}

/// The places, among the first `n`, of the hooks that run for a tool.
pub open spec fn places(v: Seq<HookV>, tool: Seq<char>, n: nat) -> Seq<usize>
    decreases n,
{
    if n == 0 {
        Seq::empty()
    } else if covers(v[n - 1].matcher, tool) {
        places(v, tool, (n - 1) as nat).push((n - 1) as usize)
    } else {
        places(v, tool, (n - 1) as nat)
    }
}

/// The places of the hooks that run for a tool, in the order in which they are
/// configured.
pub fn matching(hooks: &[ShellHook], tool: &str) -> (r: Vec<usize>)
    ensures
        r@ == places(hooks_view(hooks@), tool@, hooks@.len()),
        forall|i: int| 0 <= i < r@.len() ==> (#[trigger] r@[i]) < hooks@.len(),
{
    let ghost all = hooks_view(hooks@);
    let mut out: Vec<usize> = Vec::new();
    let mut i: usize = 0;
    while i < hooks.len()
        invariant
            0 <= i <= hooks.len(),
            all == hooks_view(hooks@),
            out@ == places(all, tool@, i as nat),
            forall|k: int| 0 <= k < out@.len() ==> (#[trigger] out@[k]) < i,
        decreases hooks.len() - i,
    {
        assert(all[i as int] == hooks@[i as int]@);
        if hooks[i].matcher.matches(tool) {
            out.push(i);
        }
        i = i + 1;
    }
    out
}

/// The variables that a hook is run with: its own, and then the event, which
/// none of its own can change.
pub open spec fn run_env(h: HookV, event: Seq<char>) -> Seq<(Seq<char>, Seq<char>)> {
    h.env.push(("HOTL_HOOK_EVENT"@, event))
}

/// What the last setting of a variable leaves it at.
pub open spec fn last_set(env: Seq<(Seq<char>, Seq<char>)>, name: Seq<char>) -> Option<Seq<char>>
    decreases env.len(),
{
    if env.len() == 0 {
        None
    } else if env.last().0 == name {
        Some(env.last().1)
    } else {
        last_set(env.drop_last(), name)
    }
}

/// A hook cannot be made to see another event than the one it runs at.
pub proof fn events_cannot_be_spoofed(h: HookV, event: Seq<char>)
    ensures
        last_set(run_env(h, event), "HOTL_HOOK_EVENT"@) == Some(event),
{
}

/// How a hook's run ended.
#[derive(Debug)]
pub enum HookRun {
    /// It could not be started, did not end in time, or was lost.
    Lost,
    /// It ended; the output is read up to one byte more than it may print.
    Ended { success: bool, stdout: Vec<u8> },
}

/// A run that counts: the hook ended well and printed no more than it may.
pub open spec fn ended_well(run: HookRun) -> bool {
    run matches HookRun::Ended { success, stdout } && success && stdout@.len() <= HOOK_MAX_OUTPUT
}

/// What bytes say as JSON.
pub open spec fn json_of_bytes(b: Seq<u8>) -> Option<JsonV> {
    if valid_utf8(b) {
        json_text(decode_utf8(b))
    } else {
        None
    }
}

/// The answer that stands for a hook which ended well and said nothing.
pub open spec fn no_opinion() -> JsonV {
    no_members().put("decision"@, JsonV::Str("continue"@))
}

/// The answer of a run: nothing where it failed; what the hook said where that
/// is JSON; else no opinion.
pub open spec fn answer_of(run: HookRun) -> Option<JsonV> {
    if !ended_well(run) {
        None
    } else {
        Some(said_or_none(json_of_bytes(run->stdout@)))
    }
}

/// What a hook that ended well is taken to say: no opinion where it said nothing
/// that can be read.
pub open spec fn said_or_none(said: Option<JsonV>) -> JsonV {
    match said {
        Some(j) => j,
        None => no_opinion(),
    }
}

/// What a hook that ended well is taken to say.
pub fn spoken(said: Option<Json>) -> (r: Json)
    ensures
        r@ == said_or_none(
            match said {
                Some(j) => Some(j@),
                None => None,
            },
        ),
{
    match said {
        Some(j) => j,
        None => Json::object().with("decision", Json::text("continue")),
    }
}

/// Whether a hook is still run.
pub open spec fn is_active(h: HookV) -> bool {
    h.strikes < MAX_STRIKES
}

/// A hook after a run: a failed one is a strike.
pub open spec fn after_run(h: HookV, run: HookRun) -> HookV {
    if ended_well(run) {
        h
    } else {
        HookV { strikes: (h.strikes + 1) as u32, ..h }
    }
}

impl ShellHook {
    /// Whether the hook is still run in this session.
    pub fn active(&self) -> (r: bool)
        ensures
            r == is_active(self@),
    {
        self.strikes < MAX_STRIKES
    }

    /// The variables that the hook is run with, later ones over earlier ones.
    pub fn environment(&self, event: &str) -> (r: Vec<(String, String)>)
        ensures
            pairs(r@) == run_env(self@, event@),
    {
        let mut out: Vec<(String, String)> = Vec::new();
        let mut i: usize = 0;
        while i < self.env.len()
            invariant
                0 <= i <= self.env.len(),
                out@.len() == i,
                forall|k: int|
                    0 <= k < i ==> (#[trigger] out@[k]).0@ == self.env@[k].0@ && out@[k].1@
                        == self.env@[k].1@,
            decreases self.env.len() - i,
        {
            out.push((self.env[i].0.clone(), self.env[i].1.clone()));
            i = i + 1;
        }
        assert(pairs(out@) =~= pairs(self.env@));
        out.push(("HOTL_HOOK_EVENT".to_owned(), event.to_owned()));
        assert(pairs(out@) =~= run_env(self@, event@));
        out
    }

    /// Takes a run of the hook: gives its answer, and what is said where this
    /// run evicts it.
    pub fn settle(&mut self, run: HookRun) -> (r: (Option<Json>, Option<String>))
        requires
            is_active(old(self)@),
        ensures
            match r.0 {
                Some(j) => answer_of(run) == Some(j@),
                None => answer_of(run) is None,
            },
            final(self)@ == after_run(old(self)@, run),
            opt_text(r.1) == (if is_active(final(self)@) {
                None
            } else {
                Some(
                    "hook `"@ + old(self)@.command + "` failed 3× — evicted for this session"@,
                )
            }),
    {
        let ghost before = self@;
        match run {
            HookRun::Ended { success, stdout } => {
                if success && stdout.len() <= HOOK_MAX_OUTPUT {
                    let said = match from_utf8(stdout) {
                        Some(t) => parse_json(t.as_str()),
                        None => None,
                    };
                    return (Some(spoken(said)), None);
                }
            },
            HookRun::Lost => {},
        }
        self.strikes = self.strikes + 1;
        assert(self@ =~= HookV { strikes: (before.strikes + 1) as u32, ..before });
        if self.strikes == MAX_STRIKES {
            let mut s = "hook `".to_owned();
            s.append(self.command.as_str());
            s.append("` failed 3× — evicted for this session");
            (None, Some(s))
        } else {
            (None, None)
        }
    }
}

/// The hook after that many failed runs.
pub open spec fn after_failures(h: HookV, n: nat) -> HookV
    decreases n,
{
    if n == 0 {
        h
    } else {
        after_run(after_failures(h, (n - 1) as nat), HookRun::Lost)
    }
}

/// Three failures in a session, and no fewer, evict a hook; a run that ends
/// well takes none of them back and adds none.
pub proof fn three_failures_evict(h: HookV, run: HookRun)
    requires
        h.strikes == 0,
    ensures
        is_active(after_failures(h, 2)),
        !is_active(after_failures(h, 3)),
        ended_well(run) ==> after_run(after_failures(h, 3), run) == after_failures(h, 3),
{
    reveal_with_fuel(after_failures, 4);
}

/// What a hook decides before a tool runs.
#[derive(Debug, PartialEq, Eq)]
pub enum PreToolDecision {
    Continue,
    Deny { message: String },
    Rewrite { input: Json },
}

/// The view of a [`PreToolDecision`].
#[verifier::ext_equal]
pub enum PreToolV {
    Continue,
    Deny(Seq<char>),
    Rewrite(JsonV),
}

impl View for PreToolDecision {
    type V = PreToolV;

    open spec fn view(&self) -> PreToolV {
        match *self {
            PreToolDecision::Continue => PreToolV::Continue,
            PreToolDecision::Deny { message } => PreToolV::Deny(message@),
            PreToolDecision::Rewrite { input } => PreToolV::Rewrite(input@),
        }
    }
}

/// What an answer decides before a tool runs. Anything that is not understood
/// is no opinion.
pub open spec fn pre_tool_of(answer: Option<JsonV>) -> PreToolV {
    match answer {
        None => PreToolV::Continue,
        Some(j) => if text_at(j, "decision"@) == Some("deny"@) {
            PreToolV::Deny(
                match text_at(j, "message"@) {
                    Some(m) => m,
                    None => "blocked by a hook"@,
                },
            )
        } else if text_at(j, "decision"@) == Some("rewrite"@) {
            match field(j, "input"@) {
                Some(i) => PreToolV::Rewrite(i),
                None => PreToolV::Continue,
            }
        } else {
            PreToolV::Continue
        },
    }
}

/// The view of an optional value.
pub open spec fn opt_view(o: Option<Json>) -> Option<JsonV> {
    match o {
        Some(j) => Some(j@),
        None => None,
    }
}

/// What an answer decides before a tool runs.
pub fn decode_pre_tool(answer: &Option<Json>) -> (r: PreToolDecision)
    ensures
        r@ == pre_tool_of(opt_view(*answer)),
{
    proof {
        reveal_strlit("deny");
        reveal_strlit("rewrite");
        assert("deny"@.len() != "rewrite"@.len());
    }
    let j = match answer {
        Some(j) => j,
        None => {
            return PreToolDecision::Continue;
        },
    };
    let word = match j.text_field("decision") {
        Some(w) => w,
        None => {
            return PreToolDecision::Continue;
        },
    };
    if same(word, "deny") {
        let message = match j.text_field("message") {
            Some(m) => m.to_owned(),
            None => "blocked by a hook".to_owned(),
        };
        PreToolDecision::Deny { message }
    } else if same(word, "rewrite") {
        match j.get("input") {
            Some(i) => PreToolDecision::Rewrite { input: i.clone() },
            None => PreToolDecision::Continue,
        }
    } else {
        PreToolDecision::Continue
    }
}

/// What a hook decides when a turn is to stop.
#[derive(Debug, PartialEq, Eq)]
pub enum StopDecision {
    Allow,
    Block { reason: String },
}

/// The view of a [`StopDecision`].
#[verifier::ext_equal]
pub enum StopV {
    Allow,
    Block(Seq<char>),
}

impl View for StopDecision {
    type V = StopV;

    open spec fn view(&self) -> StopV {
        match *self {
            StopDecision::Allow => StopV::Allow,
            StopDecision::Block { reason } => StopV::Block(reason@),
        }
    }
}

/// What an answer decides when a turn is to stop.
pub open spec fn stop_of(answer: Option<JsonV>) -> StopV {
    match answer {
        None => StopV::Allow,
        Some(j) => if text_at(j, "decision"@) == Some("block"@) {
            StopV::Block(
                match text_at(j, "reason"@) {
                    Some(m) => m,
                    None => "blocked by a hook"@,
                },
            )
        } else {
            StopV::Allow
        },
    }
}

/// What an answer decides when a turn is to stop.
pub fn decode_stop(answer: &Option<Json>) -> (r: StopDecision)
    ensures
        r@ == stop_of(opt_view(*answer)),
{
    let j = match answer {
        Some(j) => j,
        None => {
            return StopDecision::Allow;
        },
    };
    let blocks = match j.text_field("decision") {
        Some(w) => same(w, "block"),
        None => false,
    };
    if !blocks {
        return StopDecision::Allow;
    }
    let reason = match j.text_field("reason") {
        Some(m) => m.to_owned(),
        None => "blocked by a hook".to_owned(),
    };
    StopDecision::Block { reason }
}

/// The context that an answer adds to a prompt.
pub open spec fn context_of(answer: Option<JsonV>) -> Option<Seq<char>> {
    match answer {
        None => None,
        Some(j) => match field(j, "hookSpecificOutput"@) {
            Some(h) => text_at(h, "additionalContext"@),
            None => None,
        },
    }
}

/// The context that an answer adds to a prompt.
pub fn additional_context(answer: &Option<Json>) -> (r: Option<String>)
    ensures
        opt_text(r) == context_of(opt_view(*answer)),
{
    match answer {
        Some(j) => match j.get("hookSpecificOutput") {
            Some(h) => match h.text_field("additionalContext") {
                Some(t) => Some(t.to_owned()),
                None => None,
            },
            None => None,
        },
        None => None,
    }
}

/// The result after one hook more: a replacement that is not empty takes the
/// place of what there was.
pub open spec fn refined(current: Option<Seq<char>>, answer: Option<JsonV>) -> Option<Seq<char>> {
    match answer {
        None => current,
        Some(j) => match text_at(j, "result"@) {
            Some(t) => if t.len() == 0 {
                current
            } else {
                Some(t)
            },
            None => current,
        },
    }
}

/// The result after one hook more.
pub fn refine(current: Option<String>, answer: &Option<Json>) -> (r: Option<String>)
    ensures
        opt_text(r) == refined(opt_text(current), opt_view(*answer)),
{
    match answer {
        Some(j) => match j.text_field("result") {
            Some(t) => {
                if t.is_empty() {
                    current
                } else {
                    Some(t.to_owned())
                }
            },
            None => current,
        },
        None => current,
    }
}

/// What a tool hook is handed before the tool runs.
pub fn pre_tool_payload(tool: &str, input: Json) -> (r: Json)
    ensures
        r@ == no_members().put("event"@, JsonV::Str("pre_tool"@)).put("tool"@, JsonV::Str(tool@)).put(
            "input"@,
            input@,
        ),
{
    Json::object().with("event", Json::text("pre_tool")).with("tool", Json::text(tool)).with(
        "input",
        input,
    )
}

/// What a tool hook is handed after the tool ran: the result as the hooks
/// before it left it, else the tool's own, capped one.
pub fn post_tool_payload(tool: &str, current: &Option<String>, capped: &str) -> (r: Json)
    ensures
        r@ == no_members().put("event"@, JsonV::Str("post_tool"@)).put(
            "tool"@,
            JsonV::Str(tool@),
        ).put(
            "result"@,
            JsonV::Str(
                match opt_text(*current) {
                    Some(t) => t,
                    None => capped@,
                },
            ),
        ),
{
    let view = match current {
        Some(t) => t.as_str(),
        None => capped,
    };
    Json::object().with("event", Json::text("post_tool")).with("tool", Json::text(tool)).with(
        "result",
        Json::text(view),
    )
}

/// What a prompt hook is handed.
pub fn prompt_payload(prompt: &str) -> (r: Json)
    ensures
        r@ == no_members().put("event"@, JsonV::Str("user_prompt"@)).put(
            "prompt"@,
            JsonV::Str(prompt@),
        ),
{
    Json::object().with("event", Json::text("user_prompt")).with("prompt", Json::text(prompt))
}

/// What a notification is about.
#[derive(Debug, Clone, Copy, PartialEq, Eq, Structural)]
pub enum NotificationKind {
    Blocked,
    Idle,
    Done,
}

impl NotificationKind {
    /// The kind's word.
    pub open spec fn word(self) -> Seq<char> {
        match self {
            NotificationKind::Blocked => "blocked"@,
            NotificationKind::Idle => "idle"@,
            NotificationKind::Done => "done"@,
        }
    }
}

/// What a notification hook is handed.
pub fn notification_payload(kind: NotificationKind, detail: &str) -> (r: Json)
    ensures
        r@ == no_members().put("event"@, JsonV::Str("notification"@)).put(
            "kind"@,
            JsonV::Str(kind.word()),
        ).put("detail"@, JsonV::Str(detail@)),
{
    let word = match kind {
        NotificationKind::Blocked => "blocked",
        NotificationKind::Idle => "idle",
        NotificationKind::Done => "done",
    };
    Json::object().with("event", Json::text("notification")).with("kind", Json::text(word)).with(
        "detail",
        Json::text(detail),
    )
}

/// What a stop hook is handed.
pub fn stop_payload(outcome: &str) -> (r: Json)
    ensures
        r@ == no_members().put("event"@, JsonV::Str("stop"@)).put(
            "outcome"@,
            JsonV::Str(outcome@),
        ),
{
    Json::object().with("event", Json::text("stop")).with("outcome", Json::text(outcome))
}

/// What a hook is handed when the session ends.
pub fn session_end_payload() -> (r: Json)
    ensures
        r@ == no_members().put("event"@, JsonV::Str("session_end"@)),
{
    Json::object().with("event", Json::text("session_end"))
}

/// A failed hook decides nothing, whatever it runs at: it blocks nothing, adds
/// nothing and changes nothing.
pub proof fn failed_hooks_decide_nothing(run: HookRun, current: Option<Seq<char>>)
    requires
        !ended_well(run),
    ensures
        pre_tool_of(answer_of(run)) == PreToolV::Continue,
        stop_of(answer_of(run)) == StopV::Allow,
        context_of(answer_of(run)) is None,
        refined(current, answer_of(run)) == current,
{
}

/// A hook that ends well without JSON decides nothing either.
pub proof fn silent_hooks_decide_nothing(run: HookRun, current: Option<Seq<char>>)
    requires
        ended_well(run),
        json_of_bytes(run->stdout@) is None,
    ensures
        pre_tool_of(answer_of(run)) == PreToolV::Continue,
        stop_of(answer_of(run)) == StopV::Allow,
        context_of(answer_of(run)) is None,
        refined(current, answer_of(run)) == current,
{
    let m0 = Seq::<(Seq<char>, JsonV)>::empty();
    let v = JsonV::Str("continue"@);
    reveal_strlit("decision");
    reveal_strlit("hookSpecificOutput");
    reveal_strlit("result");
    reveal_strlit("continue");
    reveal_strlit("deny");
    reveal_strlit("rewrite");
    reveal_strlit("block");
    assert("decision"@.len() == 8 && "hookSpecificOutput"@.len() == 18 && "result"@.len() == 6);
    assert("continue"@.len() == 8 && "deny"@.len() == 4 && "rewrite"@.len() == 7 && "block"@.len()
        == 5);
    crate::json::put_is_found(m0, "decision"@, v, "hookSpecificOutput"@);
    crate::json::put_is_found(m0, "decision"@, v, "result"@);
    assert(field(no_opinion(), "decision"@) == Some(v));
    assert(field(no_opinion(), "hookSpecificOutput"@) is None);
    assert(field(no_opinion(), "result"@) is None);
}

proof fn named_names(v: Seq<Seq<char>>, n: nat, name: Seq<char>)
    requires
        n <= v.len(),
    ensures
        named(v, n).contains(name) <==> name.len() > 0 && exists|i: int|
            0 <= i < n && trimmed(#[trigger] v[i]) == name,
    decreases n,
{
    if n > 0 {
        named_names(v, (n - 1) as nat, name);
        let before = named(v, (n - 1) as nat);
        let all = named(v, n);
        let last = trimmed(v[n - 1]);
        if last.len() > 0 {
            assert(all == before.push(last));
            assert(all.contains(name) <==> before.contains(name) || last == name) by {
                if all.contains(name) {
                    let k = choose|k: int| 0 <= k < all.len() && all[k] == name;
                    if k < before.len() {
                        assert(before[k] == name);
                    }
                }
                if before.contains(name) {
                    let k = choose|k: int| 0 <= k < before.len() && before[k] == name;
                    assert(all[k] == name);
                }
                if last == name {
                    assert(all[before.len() as int] == name);
                }
            }
        }
    }
}

/// A hook runs for the tools that its setting names between commas, white space
/// aside, and for no others; for every tool where the setting is missing, blank
/// or an asterisk.
pub proof fn hooks_run_for_the_tools_they_name(s: Seq<char>, tool: Seq<char>)
    ensures
        covers(matcher_of(None), tool),
        trimmed(s).len() == 0 || trimmed(s) == "*"@ ==> covers(matcher_of(Some(s)), tool),
        trimmed(s).len() > 0 && trimmed(s) != "*"@ ==> (covers(matcher_of(Some(s)), tool)
            <==> tool.len() > 0 && exists|i: int|
            0 <= i < pieces(trimmed(s), ',').len() && trimmed(#[trigger] pieces(trimmed(s), ',')[i])
                == tool),
{
    let p = pieces(trimmed(s), ',');
    named_names(p, p.len(), tool);
}

/// The hooks of an event are those configured for it, in their order, each with
/// its command, its variables and its tools, and with no failure yet.
pub proof fn hooks_keep_their_event(specs: Seq<HookSpec>, event: Seq<char>, n: nat)
    requires
        n <= specs.len(),
    ensures
        ({
            let h = hooks_at(specs, event, n);
            let mine = specs.take(n as int).filter(|s: HookSpec| s.event@ == event);
            &&& h.len() == mine.len()
            &&& forall|i: int|
                0 <= i < h.len() ==> (#[trigger] h[i]).command == mine[i].command@ && h[i].env
                    == pairs(mine[i].env@) && h[i].matcher == matcher_of(opt_text(mine[i].matcher))
                    && h[i].strikes == 0
        }),
    decreases n,
{
    reveal(Seq::filter);
    if n > 0 {
        hooks_keep_their_event(specs, event, (n - 1) as nat);
        assert(specs.take(n as int).drop_last() =~= specs.take(n - 1));
        assert(specs.take(n as int).last() == specs[n - 1]);
    }
}

/// A tool's hooks are found at their places, in order: every hook that runs for
/// the tool and no other.
pub proof fn every_matching_hook_is_found(v: Seq<HookV>, tool: Seq<char>, n: nat, k: usize)
    requires
        n <= v.len() <= usize::MAX,
    ensures
        places(v, tool, n).contains(k) <==> k < n && covers(v[k as int].matcher, tool),
        forall|i: int, j: int|
            0 <= i < j < places(v, tool, n).len() ==> (#[trigger] places(v, tool, n)[i]) < (
            #[trigger] places(v, tool, n)[j]),
        forall|i: int| 0 <= i < places(v, tool, n).len() ==> (#[trigger] places(v, tool, n)[i]) < n,
    decreases n,
{
    if n > 0 {
        every_matching_hook_is_found(v, tool, (n - 1) as nat, k);
        let before = places(v, tool, (n - 1) as nat);
        let all = places(v, tool, n);
        if covers(v[n - 1].matcher, tool) {
            assert(all == before.push((n - 1) as usize));
            if all.contains(k) {
                let i = choose|i: int| 0 <= i < all.len() && all[i] == k;
                if i < before.len() {
                    assert(before[i] == k);
                }
            }
            if before.contains(k) {
                let i = choose|i: int| 0 <= i < before.len() && before[i] == k;
                assert(all[i] == k);
            }
            if k == n - 1 {
                assert(all[before.len() as int] == k);
            }
        }
    }
}

/// A hook sees its own variables as they are set, and none is lost to the event.
pub proof fn hooks_see_their_own_variables(h: HookV, event: Seq<char>, name: Seq<char>)
    requires
        name != "HOTL_HOOK_EVENT"@,
    ensures
        last_set(run_env(h, event), name) == last_set(h.env, name),
        h.env.is_prefix_of(run_env(h, event)),
{
    let e = run_env(h, event);
    assert(e.drop_last() =~= h.env);
    assert(e.take(h.env.len() as int) =~= h.env);
}

/// A run counts where the hook reported success and printed at most 65536 bytes;
/// any other is a strike, and nothing but the strikes ever changes.
pub proof fn strikes_count_failed_runs(h: HookV, success: bool, stdout: Vec<u8>)
    requires
        h.strikes < 3,
    ensures
        ({
            let run = HookRun::Ended { success, stdout };
            let next = after_run(h, run);
            &&& success && stdout@.len() <= 65536 ==> next == h && answer_of(run) is Some
            &&& !success || stdout@.len() > 65536 ==> next == (HookV {
                strikes: (h.strikes + 1) as u32,
                ..h
            }) && answer_of(run) is None
        }),
        after_run(h, HookRun::Lost).strikes == h.strikes + 1,
        answer_of(HookRun::Lost) is None,
        is_active(h),
        !is_active(HookV { strikes: 3, ..h }),
{
}

/// What a hook says is done: a denial with its message blocks the tool, a rewrite
/// replaces its input, a block with its reason keeps the turn going, a context is
/// added to the prompt and a result takes the place of the one before. No other
/// decision does anything.
pub proof fn answers_do_what_they_say(j: JsonV, current: Option<Seq<char>>)
    ensures
        ({
            let word = text_at(j, "decision"@);
            let pre = pre_tool_of(Some(j));
            let stop = stop_of(Some(j));
            &&& word == Some("deny"@) ==> (pre matches PreToolV::Deny(m) && (text_at(j, "message"@)
                is Some ==> text_at(j, "message"@) == Some(m)))
            &&& word == Some("rewrite"@) && field(j, "input"@) is Some ==> pre == PreToolV::Rewrite(
                field(j, "input"@)->0,
            )
            &&& word == Some("rewrite"@) && field(j, "input"@) is None ==> pre == PreToolV::Continue
            &&& word != Some("deny"@) && word != Some("rewrite"@) ==> pre == PreToolV::Continue
            &&& word == Some("block"@) ==> (stop matches StopV::Block(m) && (text_at(j, "reason"@)
                is Some ==> text_at(j, "reason"@) == Some(m)))
            &&& word != Some("block"@) ==> stop == StopV::Allow
            &&& field(j, "hookSpecificOutput"@) matches Some(h) ==> context_of(Some(j)) == text_at(
                h,
                "additionalContext"@,
            )
            &&& field(j, "hookSpecificOutput"@) is None ==> context_of(Some(j)) is None
            &&& text_at(j, "result"@) is Some && text_at(j, "result"@)->0.len() > 0 ==> refined(
                current,
                Some(j),
            ) == text_at(j, "result"@)
            &&& text_at(j, "result"@) is None || text_at(j, "result"@)->0.len() == 0 ==> refined(
                current,
                Some(j),
            ) == current
        }),
{
    reveal_strlit("deny");
    reveal_strlit("rewrite");
    assert("deny"@.len() != "rewrite"@.len());
}

} // verus!
