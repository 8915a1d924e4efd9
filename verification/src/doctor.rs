//! `hotl doctor`: a report on what this machine's setup will actually do. What
//! was found is handed in; what it means and how it is said is decided here.
use crate::config::{
    hosts, own_hosts, policy_of, EgressPolicy, EgressPolicyV, Host, NetworkCfg, ProviderCfg,
    ResolvedPermissions,
};
use crate::launch::AdminFile;
use crate::mcp_cli::{stale, stale_grants, stale_note, stale_text, TrustState};
use crate::paths::{join as join_path, joined_path};
use crate::plugins::{servers_view, ServerConfig, ServerV};
use crate::provider::{AuthMode, ProviderPlan};
use crate::sandbox::ReadDeny;
use crate::text::{
    decimal, decimal_of, ends_with, group3, group5, group6, has_prefix, has_suffix, join, joined,
    lines, lines_of, occurs, occurs_on, opt_str, opt_text, starts_with, texts,
};
use crate::vars::{var_or, Env};
use vstd::prelude::*;
use vstd::string::*;

verus! {

/// How a check went.
#[derive(Debug, Clone, Copy, PartialEq, Eq, Structural)]
pub enum Status {
    Pass,
    Warn,
    Fail,
}

/// One line of the report.
#[derive(Debug, PartialEq, Eq)]
pub struct Check {
    pub status: Status,
    pub line: String,
}

/// The view of a [`Check`].
#[verifier::ext_equal]
pub struct CheckV {
    pub status: Status,
    pub line: Seq<char>,
}

impl View for Check {
    type V = CheckV;

    open spec fn view(&self) -> CheckV {
        CheckV { status: self.status, line: self.line@ }
    }
}

/// The views of a list of checks.
pub open spec fn checks_view(v: Seq<Check>) -> Seq<CheckV> {
    Seq::new(v.len(), |i: int| v[i]@)
}

/// A check that went well.
pub open spec fn good(line: Seq<char>) -> CheckV {
    CheckV { status: Status::Pass, line }
}

/// A check to look at.
pub open spec fn doubtful(line: Seq<char>) -> CheckV {
    CheckV { status: Status::Warn, line }
}

/// A check that failed.
pub open spec fn bad(line: Seq<char>) -> CheckV {
    CheckV { status: Status::Fail, line }
}

fn ok(line: String) -> (r: Check)
    ensures
        r@ == good(line@),
{
    Check { status: Status::Pass, line }
}

fn warn(line: String) -> (r: Check)
    ensures
        r@ == doubtful(line@),
{
    Check { status: Status::Warn, line }
}

fn fail(line: String) -> (r: Check)
    ensures
        r@ == bad(line@),
{
    Check { status: Status::Fail, line }
}

fn put(v: &mut Vec<Check>, c: Check)
    ensures
        checks_view(final(v)@) == checks_view(old(v)@).push(c@),
{
    let ghost before = checks_view(v@);
    let ghost cv = c@;
    v.push(c);
    assert(checks_view(v@) =~= before.push(cv));
}

fn text2(a: &str, b: &str) -> (r: String)
    ensures
        r@ == a@ + b@,
{
    let mut s = a.to_owned();
    s.append(b);
    s
}

fn text3(a: &str, b: &str, c: &str) -> (r: String)
    ensures
        r@ == a@ + b@ + c@,
{
    let mut s = a.to_owned();
    s.append(b);
    s.append(c);
    s
}

/// The word before a check's line.
pub open spec fn tag(s: Status) -> Seq<char> {
    match s {
        Status::Pass => "ok  "@,
        Status::Warn => "warn"@,
        Status::Fail => "FAIL"@,
    }
}

/// The lines of the first `n` checks.
pub open spec fn check_lines(v: Seq<CheckV>, n: nat) -> Seq<char>
    decreases n,
{
    if n == 0 {
        Seq::empty()
    } else {
        check_lines(v, (n - 1) as nat) + "  "@ + tag(v[n - 1].status) + "  "@ + v[n - 1].line
            + "\n"@
    }
}

/// Whether one of the checks failed.
pub open spec fn any_failed(v: Seq<CheckV>) -> bool {
    exists|i: int| 0 <= i < v.len() && (#[trigger] v[i]).status == Status::Fail
}

/// The report, and the exit code: one where a check failed.
pub fn report(version: &str, checks: &[Check]) -> (r: (String, i32))
    ensures
        r.0@ == "hotl "@ + version@ + " — doctor\n"@ + check_lines(
            checks_view(checks@),
            checks@.len(),
        ),
        r.1 == (if any_failed(checks_view(checks@)) {
            1i32
        } else {
            0i32
        }),
{
    let ghost all = checks_view(checks@);
    let mut s = text3("hotl ", version, " — doctor\n");
    let ghost head = s@;
    let mut failed = false;
    let mut i: usize = 0;
    assert(head + check_lines(all, 0) =~= head);
    while i < checks.len()
        invariant
            0 <= i <= checks.len(),
            all == checks_view(checks@),
            s@ == head + check_lines(all, i as nat),
            failed == (exists|k: int| 0 <= k < i && (#[trigger] all[k]).status == Status::Fail),
        decreases checks.len() - i,
    {
        let c = &checks[i];
        assert(all[i as int] == c@);
        s.append("  ");
        match c.status {
            Status::Pass => s.append("ok  "),
            Status::Warn => s.append("warn"),
            Status::Fail => {
                failed = true;
                s.append("FAIL");
            },
        }
        s.append("  ");
        s.append(c.line.as_str());
        s.append("\n");
        i = i + 1;
        assert(s@ =~= head + check_lines(all, i as nat));
    }
    let code: i32 = if failed {
        1
    } else {
        0
    };
    (s, code)
}

/// How hotl authenticates, in words.
pub open spec fn source_words(auth: AuthMode, refreshable: bool) -> Seq<char> {
    if auth == AuthMode::Subscription {
        "subscription — no credential held"@
    } else if refreshable {
        "helper"@
    } else {
        "static env key"@
    }
}

/// How hotl authenticates, in words.
pub fn source_kind(auth: AuthMode, refreshable: bool) -> (r: &'static str)
    ensures
        r@ == source_words(auth, refreshable),
{
    match auth {
        AuthMode::Subscription => "subscription — no credential held",
        AuthMode::ApiKey => {
            if refreshable {
                "helper"
            } else {
                "static env key"
            }
        },
    }
}

/// A text without the slashes at its end.
pub open spec fn unslashed(s: Seq<char>) -> Seq<char>
    decreases s.len(),
{
    if s.len() > 0 && s.last() == '/' {
        unslashed(s.drop_last())
    } else {
        s
    }
}

/// An endpoint's versioned base: a bare origin gets the version's path.
pub open spec fn versioned(base: Seq<char>) -> Seq<char> {
    let b = unslashed(base);
    if has_suffix(b, "/v1"@) {
        b
    } else {
        b + "/v1"@
    }
}

/// Where the capability probe goes.
pub fn models_url(base: &str) -> (r: String)
    ensures
        r@ == versioned(base@) + "/models"@,
{
    let n: usize = base.unicode_len();
    let mut k: usize = n;
    assert(base@.subrange(0, n as int) =~= base@);
    while k > 0 && base.get_char(k - 1) == '/'
        invariant
            0 <= k <= n,
            n == base@.len(),
            unslashed(base@) == unslashed(base@.subrange(0, k as int)),
        decreases k,
    {
        assert(base@.subrange(0, k as int).drop_last() =~= base@.subrange(0, k - 1));
        k = k - 1;
    }
    let b = base.substring_char(0, k);
    assert(k > 0 ==> b@.last() == base@[k - 1]);
    assert(b@ == unslashed(base@));
    let mut s = b.to_owned();
    if !ends_with(b, "/v1") {
        s.append("/v1");
    }
    s.append("/models");
    s
}

/// What the probe of an endpoint tells, for each answer. Without a credential
/// nothing is claimed of one.
pub open spec fn probe_text(base: Seq<char>, result: Result<u16, Seq<char>>, auth: AuthMode) -> Seq<
    char,
> {
    let url = "gateway: "@ + (versioned(base) + "/models"@);
    let subscription = auth == AuthMode::Subscription;
    match result {
        Ok(s) => if s < 400 && subscription {
            url + " reachable (HTTP "@ + decimal_of(s as nat) + ")"@
        } else if s < 400 {
            url + " reachable (HTTP "@ + decimal_of(s as nat) + ", key accepted)"@
        } else if (s == 401 || s == 403) && subscription {
            url + " reachable but the endpoint is not authenticated (HTTP "@ + decimal_of(s as nat)
                + ") — hotl holds no credential in subscription mode; re-authenticate the endpoint"@
        } else if s == 401 || s == 403 {
            url + " reachable but rejected the key (HTTP "@ + decimal_of(s as nat)
                + ") — check the key source"@
        } else {
            url + " responded HTTP "@ + decimal_of(s as nat)
        },
        Err(e) => url + " unreachable ("@ + e + ") — is the gateway running?"@,
    }
}

/// The view of a probe's result.
pub open spec fn probed(result: Result<u16, String>) -> Result<u16, Seq<char>> {
    match result {
        Ok(s) => Ok(s),
        Err(e) => Err(e@),
    }
}

/// What the probe of an endpoint tells.
pub fn probe_line(base: &str, result: Result<u16, String>, auth: AuthMode) -> (r: String)
    ensures
        r@ == probe_text(base@, probed(result), auth),
{
    let mut line = text2("gateway: ", models_url(base).as_str());
    let subscription = auth == AuthMode::Subscription;
    match result {
        Ok(s) => {
            let n = decimal(s as u64);
            if s < 400 && subscription {
                line.append(" reachable (HTTP ");
                line.append(n.as_str());
                line.append(")");
            } else if s < 400 {
                line.append(" reachable (HTTP ");
                line.append(n.as_str());
                line.append(", key accepted)");
            } else if (s == 401 || s == 403) && subscription {
                line.append(" reachable but the endpoint is not authenticated (HTTP ");
                line.append(n.as_str());
                line.append(
                    ") — hotl holds no credential in subscription mode; re-authenticate the endpoint",
                );
            } else if s == 401 || s == 403 {
                line.append(" reachable but rejected the key (HTTP ");
                line.append(n.as_str());
                line.append(") — check the key source");
            } else {
                line.append(" responded HTTP ");
                line.append(n.as_str());
            }
        },
        Err(e) => {
            line.append(" unreachable (");
            line.append(e.as_str());
            line.append(") — is the gateway running?");
        },
    }
    line
}

/// The first line of a text, or all of it where it has none.
pub open spec fn first_line(s: Seq<char>) -> Seq<char> {
    if lines_of(s).len() == 0 {
        s
    } else {
        lines_of(s)[0]
    }
}

/// The check of the provider.
pub fn provider_check(selected: &Result<ProviderPlan, String>, auth: AuthMode) -> (r: Check)
    ensures
        r@ == (match *selected {
            Ok(p) => good(
                "provider: "@ + p.model@ + " selected (auth: "@ + source_words(
                    auth,
                    p.key@ is Helper,
                ) + ")"@,
            ),
            Err(e) => bad("provider: "@ + first_line(e@)),
        }),
{
    match selected {
        Ok(p) => {
            let mut s = text2("provider: ", p.model.as_str());
            s.append(" selected (auth: ");
            s.append(source_kind(auth, p.key.refreshable()));
            s.append(")");
            ok(s)
        },
        Err(e) => {
            let all = lines(e.as_str());
            assert(texts(all@).len() == all@.len());
            if all.len() == 0 {
                fail(text2("provider: ", e.as_str()))
            } else {
                assert(texts(all@)[0] == all@[0]@);
                fail(text2("provider: ", all[0].as_str()))
            }
        },
    }
}

/// What running the key helper gave.
#[derive(Debug)]
pub enum KeyRun {
    /// A key, after so many seconds, in words.
    Key { seconds: String },
    NoKey,
    Failed(String),
}

/// What is done about the key helper.
#[derive(Debug, PartialEq, Eq)]
pub enum KeyHelper {
    /// It is not run; this is the check.
    Settled(Check),
    /// It has to be run.
    Run,
}

/// Whether the key helper has to be run to check it: not where none is
/// configured, where no key is ever consulted, or where no provider could be
/// chosen.
pub fn key_helper_plan(
    cfg: &ProviderCfg,
    env: &Env,
    auth: &Result<AuthMode, String>,
    selected: bool,
) -> (r: KeyHelper)
    ensures
        ({
            let configured = var_or(
                env@,
                "HOTL_API_KEY_HELPER"@,
                opt_text(cfg.api_key_helper),
            ) is Some;
            let unused = *auth matches Ok(a) && a == AuthMode::Subscription;
            match r {
                KeyHelper::Run => configured && !unused && selected,
                KeyHelper::Settled(c) => if !configured {
                    c@ == good("key helper: not configured (static env keys)"@)
                } else if unused {
                    c@ == good("key helper: configured but unused (auth = \"subscription\")"@)
                } else {
                    !selected && c@ == doubtful(
                        "key helper: configured, but provider selection failed (see above)"@,
                    )
                },
            }
        }),
{
    if env.get_or("HOTL_API_KEY_HELPER", &cfg.api_key_helper).is_none() {
        return KeyHelper::Settled(ok("key helper: not configured (static env keys)".to_owned()));
    }
    let unused = match auth {
        Ok(a) => *a == AuthMode::Subscription,
        Err(_) => false,
    };
    if unused {
        return KeyHelper::Settled(
            ok("key helper: configured but unused (auth = \"subscription\")".to_owned()),
        );
    }
    if !selected {
        return KeyHelper::Settled(
            warn("key helper: configured, but provider selection failed (see above)".to_owned()),
        );
    }
    KeyHelper::Run
}

/// The check of a key helper that was run.
pub fn key_helper_check(run: &KeyRun) -> (r: Check)
    ensures
        r@ == (match *run {
            KeyRun::Key { seconds } => good(
                "key helper: OK ("@ + seconds@ + "s, key masked)"@,
            ),
            KeyRun::NoKey => doubtful("key helper: ran but produced no key"@),
            KeyRun::Failed(e) => bad("key helper: "@ + e@),
        }),
{
    match run {
        KeyRun::Key { seconds } => ok(
            text3("key helper: OK (", seconds.as_str(), "s, key masked)"),
        ),
        KeyRun::NoKey => warn("key helper: ran but produced no key".to_owned()),
        KeyRun::Failed(e) => fail(text2("key helper: ", e.as_str())),
    }
}

/// The check of the endpoint. `probe` is the base that was probed and what
/// came back; nothing where the vendor's own endpoint is used.
pub fn gateway_check(probe: Option<(&str, Result<u16, String>)>, auth: AuthMode) -> (r: Check)
    ensures
        r@ == (match probe {
            None => good("gateway: no custom base_url (direct provider)"@),
            Some((base, result)) => CheckV {
                status: match result {
                    Ok(s) => if s == 401 || s == 403 {
                        Status::Warn
                    } else if s < 500 {
                        Status::Pass
                    } else {
                        Status::Fail
                    },
                    Err(_) => Status::Fail,
                },
                line: probe_text(base@, probed(result), auth),
            },
        }),
{
    match probe {
        None => ok("gateway: no custom base_url (direct provider)".to_owned()),
        Some((base, result)) => {
            let status = match &result {
                Ok(s) => {
                    if *s == 401 || *s == 403 {
                        Status::Warn
                    } else if *s < 500 {
                        Status::Pass
                    } else {
                        Status::Fail
                    }
                },
                Err(_) => Status::Fail,
            };
            Check { status, line: probe_line(base, result, auth) }
        },
    }
}

/// The rows of the first `n` paths, each with why it is denied.
pub open spec fn deny_rows(paths: Seq<Seq<char>>, why: Seq<char>, n: nat) -> Seq<char>
    decreases n,
{
    if n == 0 {
        Seq::empty()
    } else {
        deny_rows(paths, why, (n - 1) as nat) + "\n        "@ + paths[n - 1] + "    "@ + why
    }
}

/// The text of the first rule that puts a path there.
pub open spec fn rule_for(rules: Seq<(Seq<char>, Seq<char>)>, path: Seq<char>) -> Seq<char> {
    match crate::vars::var(rules, path) {
        Some(w) => w,
        None => "a [[deny]] rule"@,
    }
}

/// The rows of the first `n` paths that deny rules put there.
pub open spec fn rule_rows(
    paths: Seq<Seq<char>>,
    rules: Seq<(Seq<char>, Seq<char>)>,
    n: nat,
) -> Seq<char>
    decreases n,
{
    if n == 0 {
        Seq::empty()
    } else {
        rule_rows(paths, rules, (n - 1) as nat) + "\n        "@ + paths[n - 1] + "    "@
            + rule_for(rules, paths[n - 1])
    }
}

/// The rows of the first `n` rules that do not reach the kernel.
pub open spec fn unreached_rows(v: Seq<Seq<char>>, n: nat) -> Seq<char>
    decreases n,
{
    if n == 0 {
        Seq::empty()
    } else {
        unreached_rows(v, (n - 1) as nat) + "\n          "@ + v[n - 1]
    }
}

/// The block on the deny rules that do not reach the kernel.
pub open spec fn unreached_block(v: Seq<Seq<char>>) -> Seq<char> {
    if v.len() == 0 {
        Seq::empty()
    } else {
        "\n        not reaching shell commands ("@ + decimal_of(v.len())
            + ") — still enforced for hotl's own tools:"@ + unreached_rows(v, v.len())
    }
}

/// What is denied to shell commands, path by path, with what put it there.
pub open spec fn containment_text(
    deny: ReadDeny,
    rules: Seq<(Seq<char>, Seq<char>)>,
    unreached: Seq<Seq<char>>,
) -> Seq<char> {
    "containment · reads denied to shell commands"@ + deny_rows(
        texts(deny.always@),
        "built-in, not liftable"@,
        deny.always@.len(),
    ) + deny_rows(
        texts(deny.secrets@),
        "hotl default (lift: [sandbox].readable)"@,
        deny.secrets@.len(),
    ) + rule_rows(texts(deny.rules@), rules, deny.rules@.len()) + (if deny.secrets@.len() == 0 {
        "\n        (every credential path lifted by [sandbox].readable)"@
    } else {
        ""@
    }) + unreached_block(unreached)
}

fn unprojectable_block(unreached: &[String]) -> (r: String)
    ensures
        r@ == unreached_block(texts(unreached@)),
{
    let ghost all = texts(unreached@);
    let mut s = String::new();
    if unreached.len() == 0 {
        return s;
    }
    s.append("\n        not reaching shell commands (");
    s.append(decimal(unreached.len() as u64).as_str());
    s.append(") — still enforced for hotl's own tools:");
    let ghost head = s@;
    assert(head =~= "\n        not reaching shell commands ("@ + decimal_of(all.len())
        + ") — still enforced for hotl's own tools:"@);
    let mut i: usize = 0;
    assert(head + unreached_rows(all, 0) =~= head);
    while i < unreached.len()
        invariant
            0 <= i <= unreached.len(),
            all == texts(unreached@),
            s@ == head + unreached_rows(all, i as nat),
        decreases unreached.len() - i,
    {
        assert(all[i as int] == unreached@[i as int]@);
        s.append("\n          ");
        s.append(unreached[i].as_str());
        i = i + 1;
        assert(s@ =~= head + unreached_rows(all, i as nat));
    }
    s
}

fn push_rows(s: &mut String, paths: &Vec<String>, why: &str)
    ensures
        final(s)@ == old(s)@ + deny_rows(texts(paths@), why@, paths@.len()),
{
    let ghost head = s@;
    let ghost all = texts(paths@);
    let mut i: usize = 0;
    assert(head + deny_rows(all, why@, 0) =~= head);
    while i < paths.len()
        invariant
            0 <= i <= paths.len(),
            all == texts(paths@),
            s@ == head + deny_rows(all, why@, i as nat),
        decreases paths.len() - i,
    {
        assert(all[i as int] == paths@[i as int]@);
        s.append("\n        ");
        s.append(paths[i].as_str());
        s.append("    ");
        s.append(why);
        i = i + 1;
        assert(s@ =~= head + deny_rows(all, why@, i as nat));
    }
}

/// What is denied to shell commands. `rules` holds the text of each deny rule
/// with its path, and `unreached` what is said of those without one.
pub fn containment_section(deny: &ReadDeny, rules: &Env, unreached: &[String]) -> (r: String)
    ensures
        r@ == containment_text(*deny, rules@, texts(unreached@)),
{
    let mut s = "containment · reads denied to shell commands".to_owned();
    push_rows(&mut s, &deny.always, "built-in, not liftable");
    push_rows(&mut s, &deny.secrets, "hotl default (lift: [sandbox].readable)");
    let ghost head = s@;
    let ghost all = texts(deny.rules@);
    let mut i: usize = 0;
    assert(head + rule_rows(all, rules@, 0) =~= head);
    while i < deny.rules.len()
        invariant
            0 <= i <= deny.rules.len(),
            all == texts(deny.rules@),
            s@ == head + rule_rows(all, rules@, i as nat),
        decreases deny.rules.len() - i,
    {
        assert(all[i as int] == deny.rules@[i as int]@);
        s.append("\n        ");
        s.append(deny.rules[i].as_str());
        s.append("    ");
        match rules.get(deny.rules[i].as_str()) {
            Some(w) => s.append(w),
            None => s.append("a [[deny]] rule"),
        }
        i = i + 1;
        assert(s@ =~= head + rule_rows(all, rules@, i as nat));
    }
    if deny.secrets.len() == 0 {
        s.append("\n        (every credential path lifted by [sandbox].readable)");
    } else {
        s.append("");
    }
    s.append(unprojectable_block(unreached).as_str());
    s
}

/// What the probe of the sandbox found.
#[derive(Debug)]
pub enum SandboxStatus {
    Enforced(String),
    Disabled,
    Unavailable(String),
}

/// What there is to report of the sandbox.
#[derive(Debug)]
pub struct SandboxReport {
    pub warnings: Vec<String>,
    pub writable: Vec<String>,
    pub read_deny: ReadDeny,
    /// The text of each deny rule with its path.
    pub rules: Env,
    pub unreached: Vec<String>,
    /// The shell and how it was found, or why there is none.
    pub shell: Result<(String, String), String>,
    pub status: SandboxStatus,
    /// Whether the read carve holds, where that was tried.
    pub carve: Option<bool>,
    pub carve_failures: Vec<String>,
}

/// The first `n` texts as checks to look at, each with words around it.
pub open spec fn doubts(head: Seq<char>, v: Seq<Seq<char>>, tail: Seq<char>, n: nat) -> Seq<CheckV>
    decreases n,
{
    if n == 0 {
        Seq::empty()
    } else {
        doubts(head, v, tail, (n - 1) as nat).push(doubtful(head + v[n - 1] + tail))
    }
}

fn put_doubts(out: &mut Vec<Check>, head: &str, v: &[String], tail: &str)
    ensures
        checks_view(final(out)@) == checks_view(old(out)@) + doubts(
            head@,
            texts(v@),
            tail@,
            v@.len(),
        ),
{
    let ghost start = checks_view(out@);
    let ghost all = texts(v@);
    let mut i: usize = 0;
    assert(start + doubts(head@, all, tail@, 0) =~= start);
    while i < v.len()
        invariant
            0 <= i <= v.len(),
            all == texts(v@),
            checks_view(out@) == start + doubts(head@, all, tail@, i as nat),
        decreases v.len() - i,
    {
        assert(all[i as int] == v@[i as int]@);
        put(out, warn(text3(head, v[i].as_str(), tail)));
        i = i + 1;
        assert(checks_view(out@) =~= start + doubts(head@, all, tail@, i as nat));
    }
}

/// Whether the read carve denies nothing.
pub open spec fn denies_nothing(d: ReadDeny) -> bool {
    d.always@.len() == 0 && d.secrets@.len() == 0 && d.rules@.len() == 0
}

/// The check of the read carve.
pub open spec fn carve_check(s: SandboxReport) -> CheckV {
    if denies_nothing(s.read_deny) {
        doubtful(
            "sandbox: read-carve empty — sandboxed commands can read everything"@
                + unreached_block(texts(s.unreached@)),
        )
    } else {
        good(containment_text(s.read_deny, s.rules@, texts(s.unreached@)))
    }
}

/// The check of the shell.
pub open spec fn shell_check(s: SandboxReport) -> CheckV {
    match s.shell {
        Ok((path, how)) => good("shell: "@ + path@ + " (found via "@ + how@ + ")"@),
        Err(why) => doubtful(
            "shell: none — the `bash` tool is absent from the registry. "@ + why@,
        ),
    }
}

/// The check of the write floor.
pub open spec fn floor_check(s: SandboxReport) -> CheckV {
    match s.status {
        SandboxStatus::Enforced(m) => good(
            "sandbox: enforced ("@ + m@ + ")"@ + (if s.writable@.len() == 0 {
                ""@
            } else {
                " · [sandbox].writable: "@ + joined(texts(s.writable@), ", "@)
            }),
        ),
        SandboxStatus::Disabled => doubtful(
            "sandbox: disabled via HOTL_SANDBOX=off — every exec is individually gated"@,
        ),
        SandboxStatus::Unavailable(why) => doubtful(
            "sandbox: unavailable ("@ + why@ + ") — every exec is individually gated"@,
        ),
    }
}

/// The checks of the sandbox, in order.
pub open spec fn sandbox_checks(s: SandboxReport) -> Seq<CheckV> {
    let a = doubts("sandbox: "@, texts(s.warnings@), ""@, s.warnings@.len()).push(
        carve_check(s),
    ).push(shell_check(s)).push(floor_check(s));
    let b = match s.carve {
        Some(true) => a.push(good("sandbox: read carve enforced (verified by the probe)"@)),
        Some(false) => a.push(
            doubtful(
                "sandbox: the read carve is NOT enforced on this host — a sandboxed command can read hotl's own config/state and your credentials; every ask is marked `reads:open`"@,
            ),
        ),
        None => a,
    };
    b + doubts(
        "sandbox: the read carve could not open "@,
        texts(s.carve_failures@),
        " — reads under it are denied to sandboxed commands, which is fail-closed but was not asked for"@,
        s.carve_failures@.len(),
    )
}

fn check_carve(s: &SandboxReport) -> (r: Check)
    ensures
        r@ == carve_check(*s),
{
    let d = &s.read_deny;
    if d.always.len() == 0 && d.secrets.len() == 0 && d.rules.len() == 0 {
        warn(
            text2(
                "sandbox: read-carve empty — sandboxed commands can read everything",
                unprojectable_block(s.unreached.as_slice()).as_str(),
            ),
        )
    } else {
        ok(containment_section(d, &s.rules, s.unreached.as_slice()))
    }
}

fn check_shell(s: &SandboxReport) -> (r: Check)
    ensures
        r@ == shell_check(*s),
{
    match &s.shell {
        Ok((path, how)) => {
            let mut t = text2("shell: ", path.as_str());
            t.append(" (found via ");
            t.append(how.as_str());
            t.append(")");
            ok(t)
        },
        Err(why) => warn(
            text2("shell: none — the `bash` tool is absent from the registry. ", why.as_str()),
        ),
    }
}

fn check_floor(s: &SandboxReport) -> (r: Check)
    ensures
        r@ == floor_check(*s),
{
    match &s.status {
        SandboxStatus::Enforced(m) => {
            let mut t = text3("sandbox: enforced (", m.as_str(), ")");
            if s.writable.len() == 0 {
                t.append("");
            } else {
                let ghost before = t@;
                t.append(" · [sandbox].writable: ");
                t.append(join(s.writable.as_slice(), ", ").as_str());
                assert(t@ =~= before + (" · [sandbox].writable: "@ + joined(
                    texts(s.writable@),
                    ", "@,
                )));
            }
            ok(t)
        },
        SandboxStatus::Disabled => warn(
            "sandbox: disabled via HOTL_SANDBOX=off — every exec is individually gated".to_owned(),
        ),
        SandboxStatus::Unavailable(why) => warn(
            text3(
                "sandbox: unavailable (",
                why.as_str(),
                ") — every exec is individually gated",
            ),
        ),
    }
}

/// The checks of the sandbox.
pub fn sandbox_check(s: &SandboxReport) -> (r: Vec<Check>)
    ensures
        checks_view(r@) == sandbox_checks(*s),
{
    let mut out: Vec<Check> = Vec::new();
    assert(checks_view(out@) =~= Seq::empty());
    put_doubts(&mut out, "sandbox: ", s.warnings.as_slice(), "");
    assert(checks_view(out@) =~= doubts(
        "sandbox: "@,
        texts(s.warnings@),
        ""@,
        s.warnings@.len(),
    ));
    put(&mut out, check_carve(s));
    put(&mut out, check_shell(s));
    put(&mut out, check_floor(s));
    match s.carve {
        Some(true) => put(
            &mut out,
            ok("sandbox: read carve enforced (verified by the probe)".to_owned()),
        ),
        Some(false) => put(
            &mut out,
            warn(
                "sandbox: the read carve is NOT enforced on this host — a sandboxed command can read hotl's own config/state and your credentials; every ask is marked `reads:open`".to_owned(),
            ),
        ),
        None => {},
    }
    put_doubts(
        &mut out,
        "sandbox: the read carve could not open ",
        s.carve_failures.as_slice(),
        " — reads under it are denied to sandboxed commands, which is fail-closed but was not asked for",
    );
    out
}

/// The checks of an egress policy: what lets through is told apart by where it
/// comes from. `starter` is how many of the hosts are hotl's own.
pub open spec fn egress_lines(
    policy: EgressPolicyV,
    warning: Option<Seq<char>>,
    starter: nat,
    starter_list: Seq<Seq<char>>,
) -> Seq<CheckV> {
    let a = match warning {
        Some(w) => seq![bad("egress: "@ + w)],
        None => seq![],
    };
    match policy {
        EgressPolicyV::Open => a.push(
            good(
                "egress: open — unrestricted; the human gate is the exfiltration boundary"@,
            ),
        ),
        EgressPolicyV::Off => a.push(
            good(
                "egress: off — loopback and unix sockets only, no ask (no proxy in the path)"@,
            ),
        ),
        EgressPolicyV::Allowlist(all) => {
            let custom = if starter <= all.len() {
                all.skip(starter as int)
            } else {
                Seq::empty()
            };
            let b = a.push(
                good(
                    "egress: allowlist — "@ + decimal_of(all.len()) + (if all.len() == 1 {
                        " host total"@
                    } else {
                        " hosts total"@
                    }),
                ),
            );
            let c = if starter > 0 {
                b.push(
                    good(
                        "egress: "@ + decimal_of(starter)
                            + " from hotl's starter list (set [network].defaults = false to drop): "@
                            + joined(starter_list, ", "@),
                    ),
                )
            } else {
                b
            };
            c.push(
                good(
                    if custom.len() == 0 {
                        "egress: 0 from config.toml [network].allow"@
                    } else {
                        "egress: "@ + decimal_of(custom.len())
                            + " from config.toml [network].allow: "@ + joined(custom, ", "@)
                    },
                ),
            )
        },
    }
}

fn after_first(v: &Vec<String>, k: usize) -> (r: Vec<String>)
    ensures
        texts(r@) == (if k <= v@.len() {
            texts(v@).skip(k as int)
        } else {
            Seq::empty()
        }),
{
    let mut out: Vec<String> = Vec::new();
    let ghost all = texts(v@);
    assert(texts(out@) =~= Seq::empty());
    if k > v.len() {
        return out;
    }
    let mut i: usize = k;
    assert(all.subrange(k as int, k as int) =~= Seq::empty());
    while i < v.len()
        invariant
            k <= i <= v.len(),
            all == texts(v@),
            texts(out@) == all.subrange(k as int, i as int),
        decreases v.len() - i,
    {
        let ghost before = texts(out@);
        out.push(v[i].clone());
        assert(all[i as int] == v@[i as int]@);
        assert(texts(out@) =~= before.push(all[i as int]));
        i = i + 1;
        assert(all.subrange(k as int, i as int) =~= all.subrange(k as int, i - 1).push(
            all[i - 1],
        ));
    }
    assert(all.subrange(k as int, i as int) =~= all.skip(k as int));
    out
}

/// The checks of an egress policy.
pub fn egress_report(
    policy: &EgressPolicy,
    warning: Option<&str>,
    starter: usize,
    starter_list: &[String],
) -> (r: Vec<Check>)
    ensures
        checks_view(r@) == egress_lines(
            policy@,
            opt_str(warning),
            starter as nat,
            texts(starter_list@),
        ),
{
    let mut out: Vec<Check> = Vec::new();
    assert(checks_view(out@) =~= seq![]);
    if let Some(w) = warning {
        put(&mut out, fail(text2("egress: ", w)));
        assert(checks_view(out@) =~= seq![bad("egress: "@ + w@)]);
    }
    match policy {
        EgressPolicy::Open => put(
            &mut out,
            ok(
                "egress: open — unrestricted; the human gate is the exfiltration boundary".to_owned(),
            ),
        ),
        EgressPolicy::Off => put(
            &mut out,
            ok(
                "egress: off — loopback and unix sockets only, no ask (no proxy in the path)".to_owned(),
            ),
        ),
        EgressPolicy::Allowlist(hosts) => {
            assert(texts(hosts@).len() == hosts@.len());
            let custom = after_first(hosts, starter);
            assert(texts(custom@).len() == custom@.len());
            let mut line = text2("egress: allowlist — ", decimal(hosts.len() as u64).as_str());
            if hosts.len() == 1 {
                line.append(" host total");
            } else {
                line.append(" hosts total");
            }
            put(&mut out, ok(line));
            if starter > 0 {
                let mut line = text2("egress: ", decimal(starter as u64).as_str());
                line.append(
                    " from hotl's starter list (set [network].defaults = false to drop): ",
                );
                line.append(join(starter_list, ", ").as_str());
                put(&mut out, ok(line));
            }
            if custom.len() == 0 {
                put(&mut out, ok("egress: 0 from config.toml [network].allow".to_owned()));
            } else {
                let mut line = text2("egress: ", decimal(custom.len() as u64).as_str());
                line.append(" from config.toml [network].allow: ");
                line.append(join(custom.as_slice(), ", ").as_str());
                put(&mut out, ok(line));
            }
        },
    }
    out
}

/// The shipped hosts, as they are written.
pub open spec fn starter_texts(starter: Seq<Host>) -> Seq<Seq<char>> {
    Seq::new(starter.len(), |i: int| starter[i].entry@)
}

/// The checks of `[network]`: the policy and the allowlist are those that a
/// run would have.
pub fn egress_checks(cfg: &NetworkCfg, starter: &[Host], normals: &[String]) -> (r: Vec<Check>)
    requires
        normals@.len() == cfg.allow@.len(),
    ensures
        ({
            let (policy, warning) = policy_of(*cfg, hosts(starter@), own_hosts(*cfg, normals@));
            checks_view(r@) == egress_lines(
                policy,
                warning,
                if cfg.defaults != Some(false) {
                    starter@.len()
                } else {
                    0
                },
                starter_texts(starter@),
            )
        }),
{
    let (policy, warning) = cfg.egress_policy(starter, normals);
    let mut list: Vec<String> = Vec::new();
    let mut i: usize = 0;
    while i < starter.len()
        invariant
            0 <= i <= starter.len(),
            list@.len() == i,
            forall|k: int| 0 <= k < i ==> (#[trigger] list@[k])@ == starter@[k].entry@,
        decreases starter.len() - i,
    {
        list.push(starter[i].entry.clone());
        i = i + 1;
    }
    assert(texts(list@) =~= starter_texts(starter@));
    let w = match &warning {
        Some(s) => Some(s.as_str()),
        None => None,
    };
    egress_report(&policy, w, cfg.starter_count(starter.len()), list.as_slice())
}

/// The check of the configuration file.
pub fn config_check(config_dir: &str, is_file: bool) -> (r: Check)
    ensures
        r@ == good(
            if is_file {
                "config: "@ + joined_path(config_dir@, "config.toml"@) + " loaded"@
            } else {
                "config: none at "@ + joined_path(config_dir@, "config.toml"@)
                    + " (defaults; run `hotl setup`)"@
            },
        ),
{
    let path = join_path(config_dir, "config.toml");
    if is_file {
        ok(text3("config: ", path.as_str(), " loaded"))
    } else {
        ok(text3("config: none at ", path.as_str(), " (defaults; run `hotl setup`)"))
    }
}

/// The check of the permissions: a warning on the mode goes first, and a build
/// that enforces asking says so.
pub fn permissions_check(
    resolved: &ResolvedPermissions,
    strict: bool,
    admin_path: &str,
    admin: &AdminFile,
) -> (r: Check)
    ensures
        r@ == (match opt_text(resolved.warning) {
            Some(w) => doubtful("permissions: "@ + w),
            None => if strict {
                good("permissions: enforced (build) — mode config is ignored"@)
            } else {
                match *admin {
                    AdminFile::Refused(why) => doubtful(
                        "permissions: admin file "@ + admin_path@ + " refused — "@ + why@,
                    ),
                    _ => good(
                        "permissions: "@ + resolved.mode.word() + (if resolved.plan {
                            " · plan"@
                        } else {
                            ""@
                        }) + " (protected paths always ask)"@ + (if *admin is Merged {
                            " · admin rules: "@ + admin_path@
                        } else {
                            ""@
                        }),
                    ),
                }
            },
        }),
{
    if let Some(w) = &resolved.warning {
        return warn(text2("permissions: ", w.as_str()));
    }
    if strict {
        return ok("permissions: enforced (build) — mode config is ignored".to_owned());
    }
    let mut s = text2("permissions: ", resolved.mode.as_str());
    if resolved.plan {
        s.append(" · plan");
    } else {
        s.append("");
    }
    s.append(" (protected paths always ask)");
    match admin {
        AdminFile::Refused(why) => {
            let mut t = text3("permissions: admin file ", admin_path, " refused — ");
            t.append(why.as_str());
            warn(t)
        },
        AdminFile::Merged => {
            let note = text2(" · admin rules: ", admin_path);
            s.append(note.as_str());
            ok(s)
        },
        AdminFile::Absent => {
            s.append("");
            ok(s)
        },
    }
}

/// What became of the rule sections.
#[derive(Debug)]
pub enum RuleFile {
    Absent,
    Loaded,
    Unreadable(String),
}

/// Those of the first `n` warnings that are no notes, as checks.
pub open spec fn rule_doubts(v: Seq<Seq<char>>, n: nat) -> Seq<CheckV>
    decreases n,
{
    if n == 0 {
        Seq::empty()
    } else if has_prefix(v[n - 1], "note: "@) {
        rule_doubts(v, (n - 1) as nat)
    } else {
        rule_doubts(v, (n - 1) as nat).push(doubtful("rules: "@ + v[n - 1]))
    }
}

/// The check of the rule sections alone.
pub open spec fn rule_file_check(f: RuleFile) -> CheckV {
    match f {
        RuleFile::Absent => good("allow rules: none (every gated tool call asks)"@),
        RuleFile::Loaded => good("allow rules: [[allow]]/[[deny]] in config.toml loaded"@),
        RuleFile::Unreadable(e) => doubtful(
            "allow rules: config.toml [[allow]] ignored: "@ + e@,
        ),
    }
}

/// The checks of the rules. The notes among the warnings stand under the
/// containment already.
pub fn rules_check(file: &RuleFile, warnings: &[String]) -> (r: Vec<Check>)
    ensures
        checks_view(r@) == seq![rule_file_check(*file)] + rule_doubts(
            texts(warnings@),
            warnings@.len(),
        ),
{
    let ghost all = texts(warnings@);
    let first = match file {
        RuleFile::Absent => ok("allow rules: none (every gated tool call asks)".to_owned()),
        RuleFile::Loaded => ok("allow rules: [[allow]]/[[deny]] in config.toml loaded".to_owned()),
        RuleFile::Unreadable(e) => warn(
            text2("allow rules: config.toml [[allow]] ignored: ", e.as_str()),
        ),
    };
    let mut out: Vec<Check> = Vec::new();
    out.push(first);
    let ghost head = seq![rule_file_check(*file)];
    assert(checks_view(out@) =~= head);
    let mut i: usize = 0;
    assert(head + rule_doubts(all, 0) =~= head);
    while i < warnings.len()
        invariant
            0 <= i <= warnings.len(),
            all == texts(warnings@),
            checks_view(out@) == head + rule_doubts(all, i as nat),
        decreases warnings.len() - i,
    {
        let line = warnings[i].as_str();
        assert(all[i as int] == line@);
        if !starts_with(line, "note: ") {
            put(&mut out, warn(text2("rules: ", line)));
        }
        i = i + 1;
        assert(checks_view(out@) =~= head + rule_doubts(all, i as nat));
    }
    out
}

/// How many of the first `n` states are `want`.
pub open spec fn state_count(v: Seq<TrustState>, want: TrustState, n: nat) -> nat
    decreases n,
{
    if n == 0 {
        0
    } else {
        state_count(v, want, (n - 1) as nat) + (if v[n - 1] == want {
            1nat
        } else {
            0nat
        })
    }
}

fn count_state(v: &[TrustState], want: TrustState) -> (r: usize)
    ensures
        r == state_count(v@, want, v@.len()),
{
    let mut n: usize = 0;
    let mut i: usize = 0;
    while i < v.len()
        invariant
            0 <= i <= v.len(),
            n == state_count(v@, want, i as nat),
            n <= i,
        decreases v.len() - i,
    {
        if v[i] == want {
            n = n + 1;
        }
        i = i + 1;
    }
    n
}

/// The checks of those of the first `n` servers whose binary cannot be read.
pub open spec fn unreadable_servers(
    servers: Seq<ServerV>,
    states: Seq<TrustState>,
    n: nat,
) -> Seq<CheckV>
    decreases n,
{
    if n == 0 {
        Seq::empty()
    } else if states[n - 1] == TrustState::Unhashable {
        unreadable_servers(servers, states, (n - 1) as nat).push(
            doubtful(
                "mcp: `"@ + servers[n - 1].name
                    + "`'s binary cannot be read, so hotl will ask every time — fix the path, or run: hotl mcp untrust "@
                    + servers[n - 1].name,
            ),
        )
    } else {
        unreadable_servers(servers, states, (n - 1) as nat)
    }
}

/// The checks of the first `n` grants without a server.
pub open spec fn stale_checks(v: Seq<Seq<char>>, n: nat) -> Seq<CheckV>
    decreases n,
{
    if n == 0 {
        Seq::empty()
    } else {
        stale_checks(v, (n - 1) as nat).push(doubtful("mcp: "@ + stale_note(v[n - 1])))
    }
}

/// The checks of the tool servers, in order.
pub open spec fn mcp_checks(
    servers: Seq<ServerV>,
    states: Seq<TrustState>,
    warnings: Seq<Seq<char>>,
    grants: Seq<Seq<char>>,
) -> Seq<CheckV> {
    let left = stale(grants, servers);
    doubts("mcp: "@, warnings, ""@, warnings.len()) + (if servers.len() == 0 {
        seq![good("mcp: no servers configured"@)]
    } else {
        seq![
            good(
                "mcp: "@ + decimal_of(servers.len()) + " server(s) configured ("@ + decimal_of(
                    state_count(states, TrustState::Trusted, states.len()),
                ) + " trusted, "@ + decimal_of(
                    state_count(states, TrustState::Untrusted, states.len()),
                ) + " screen on first use)"@,
            ),
        ] + unreadable_servers(servers, states, servers.len())
    }) + stale_checks(left, left.len())
}

/// The checks of the tool servers: what a launch will do with each, what the
/// trust file is warned of, and the grants without a server.
pub fn mcp_check(
    servers: &[ServerConfig],
    states: &[TrustState],
    warnings: &[String],
    grants: &[String],
) -> (r: Vec<Check>)
    requires
        states@.len() == servers@.len(),
    ensures
        checks_view(r@) == mcp_checks(
            servers_view(servers@),
            states@,
            texts(warnings@),
            texts(grants@),
        ),
{
    let ghost sv = servers_view(servers@);
    let mut out: Vec<Check> = Vec::new();
    assert(checks_view(out@) =~= Seq::empty());
    put_doubts(&mut out, "mcp: ", warnings, "");
    let ghost head = doubts("mcp: "@, texts(warnings@), ""@, warnings@.len());
    assert(checks_view(out@) =~= head);
    let ghost mut mid: Seq<CheckV> = Seq::empty();
    if servers.len() == 0 {
        put(&mut out, ok("mcp: no servers configured".to_owned()));
        proof {
            mid = seq![good("mcp: no servers configured"@)];
        }
        assert(checks_view(out@) =~= head + mid);
    } else {
        let mut line = text2("mcp: ", decimal(servers.len() as u64).as_str());
        line.append(" server(s) configured (");
        line.append(decimal(count_state(states, TrustState::Trusted) as u64).as_str());
        line.append(" trusted, ");
        line.append(decimal(count_state(states, TrustState::Untrusted) as u64).as_str());
        line.append(" screen on first use)");
        let ghost first = seq![good(line@)];
        put(&mut out, ok(line));
        assert(checks_view(out@) =~= head + first);
        let mut i: usize = 0;
        assert(head + (first + unreadable_servers(sv, states@, 0)) =~= head + first);
        while i < servers.len()
            invariant
                0 <= i <= servers.len(),
                states@.len() == servers@.len(),
                sv == servers_view(servers@),
                checks_view(out@) == head + (first + unreadable_servers(sv, states@, i as nat)),
            decreases servers.len() - i,
        {
            let name = servers[i].name.as_str();
            assert(sv[i as int].name == name@);
            if states[i] == TrustState::Unhashable {
                let mut t = text2("mcp: `", name);
                t.append(
                    "`'s binary cannot be read, so hotl will ask every time — fix the path, or run: hotl mcp untrust ",
                );
                t.append(name);
                put(&mut out, warn(t));
            }
            i = i + 1;
            assert(checks_view(out@) =~= head + (first + unreadable_servers(
                sv,
                states@,
                i as nat,
            )));
        }
        proof {
            mid = first + unreadable_servers(sv, states@, sv.len());
        }
    }
    let left = stale_grants(grants, servers);
    let ghost gv = texts(left@);
    let ghost so_far = head + mid;
    assert(gv.len() == left@.len());
    let mut k: usize = 0;
    assert(so_far + stale_checks(gv, 0) =~= so_far);
    while k < left.len()
        invariant
            0 <= k <= left.len(),
            gv == texts(left@),
            checks_view(out@) == so_far + stale_checks(gv, k as nat),
        decreases left.len() - k,
    {
        assert(gv[k as int] == left@[k as int]@);
        put(&mut out, warn(text2("mcp: ", stale_text(left[k].as_str()).as_str())));
        k = k + 1;
        assert(checks_view(out@) =~= so_far + stale_checks(gv, k as nat));
    }
    out
}

/// What trying to write a session log gave.
#[derive(Debug)]
pub enum SessionProbe {
    Writable,
    NoDir(String),
    ReadOnly(String),
}

/// The check of the session logs' directory.
pub fn sessions_check(dir: &str, probe: &SessionProbe) -> (r: Check)
    ensures
        r@ == (match *probe {
            SessionProbe::Writable => good("sessions: "@ + dir@ + " (writable)"@),
            SessionProbe::NoDir(e) => bad("sessions: cannot create "@ + dir@ + ": "@ + e@),
            SessionProbe::ReadOnly(e) => bad("sessions: "@ + dir@ + " not writable: "@ + e@),
        }),
{
    match probe {
        SessionProbe::Writable => ok(text3("sessions: ", dir, " (writable)")),
        SessionProbe::NoDir(e) => {
            let mut s = text3("sessions: cannot create ", dir, ": ");
            s.append(e.as_str());
            fail(s)
        },
        SessionProbe::ReadOnly(e) => {
            let mut s = text3("sessions: ", dir, " not writable: ");
            s.append(e.as_str());
            fail(s)
        },
    }
}

/// The check of the user's memory.
pub fn memory_check(config_dir: &str, present: bool) -> (r: Check)
    ensures
        r@ == good(
            if present {
                "memory: memory/MEMORY.md loads at session start"@
            } else {
                "memory: none (create "@ + config_dir@ + "/memory/MEMORY.md to enable)"@
            },
        ),
{
    if present {
        ok("memory: memory/MEMORY.md loads at session start".to_owned())
    } else {
        ok(text3("memory: none (create ", config_dir, "/memory/MEMORY.md to enable)"))
    }
}

/// What the newest session's snapshots show.
#[derive(Debug)]
pub enum UndoState {
    NoGit,
    NoSession,
    Untouched { session: String },
    Ready { label: String, session: String },
    Warming { session: String },
}

/// The check of undo points.
pub fn undo_check(state: &UndoState) -> (r: Check)
    ensures
        r@ == (match *state {
            UndoState::NoGit => doubtful(
                "undo: git not found — `hotl undo` snapshots are disabled"@,
            ),
            UndoState::NoSession => good(
                "undo: git found — sessions snapshot at quiet windows"@,
            ),
            UndoState::Untouched { session } => good(
                "undo: no agent mutations in session "@ + session@,
            ),
            UndoState::Ready { label, session } => good(
                "undo: ready (\""@ + label@ + "\", session "@ + session@ + ")"@,
            ),
            UndoState::Warming { session } => doubtful(
                "undo: warming — no snapshot yet in session "@ + session@,
            ),
        }),
{
    match state {
        UndoState::NoGit => warn(
            "undo: git not found — `hotl undo` snapshots are disabled".to_owned(),
        ),
        UndoState::NoSession => ok(
            "undo: git found — sessions snapshot at quiet windows".to_owned(),
        ),
        UndoState::Untouched { session } => ok(
            text2("undo: no agent mutations in session ", session.as_str()),
        ),
        UndoState::Ready { label, session } => {
            let mut s = text3("undo: ready (\"", label.as_str(), "\", session ");
            s.append(session.as_str());
            s.append(")");
            ok(s)
        },
        UndoState::Warming { session } => warn(
            text2("undo: warming — no snapshot yet in session ", session.as_str()),
        ),
    }
}

/// The check of stored logs for what is a secret now.
pub fn audit_check(hits: &[String]) -> (r: Check)
    ensures
        r@ == (if hits@.len() == 0 {
            good("secrets audit: no current secret values found in stored logs"@)
        } else {
            doubtful(
                "secrets audit: "@ + decimal_of(hits@.len())
                    + " log(s) contain values that are now secrets — rotate them (first: "@
                    + hits@[0]@ + ")"@,
            )
        }),
{
    if hits.len() == 0 {
        return ok("secrets audit: no current secret values found in stored logs".to_owned());
    }
    let mut s = text2("secrets audit: ", decimal(hits.len() as u64).as_str());
    s.append(" log(s) contain values that are now secrets — rotate them (first: ");
    s.append(hits[0].as_str());
    s.append(")");
    warn(s)
}

/// What was found, check by check.
#[derive(Debug)]
pub struct Findings {
    pub provider: Check,
    pub sandbox: Vec<Check>,
    pub egress: Vec<Check>,
    pub config: Check,
    pub permissions: Check,
    pub rules: Vec<Check>,
    pub sessions: Check,
    pub mcp: Vec<Check>,
    pub memory: Check,
    pub audit: Check,
    pub undo: Check,
    pub key_helper: Check,
    pub gateway: Check,
}

/// The checks in the order of the report.
pub fn in_report_order(f: Findings) -> (r: Vec<Check>)
    ensures
        r@ == seq![f.provider] + f.sandbox@ + f.egress@ + seq![f.config, f.permissions]
            + f.rules@ + seq![f.sessions] + f.mcp@ + seq![
            f.memory,
            f.audit,
            f.undo,
            f.key_helper,
            f.gateway,
        ],
{
    let mut v: Vec<Check> = Vec::new();
    let mut sandbox = f.sandbox;
    let mut egress = f.egress;
    let mut rules = f.rules;
    let mut mcp = f.mcp;
    v.push(f.provider);
    v.append(&mut sandbox);
    v.append(&mut egress);
    v.push(f.config);
    v.push(f.permissions);
    v.append(&mut rules);
    v.push(f.sessions);
    v.append(&mut mcp);
    v.push(f.memory);
    v.push(f.audit);
    v.push(f.undo);
    v.push(f.key_helper);
    v.push(f.gateway);
    v
}

/// A user without a credential is never told that one is in play.
pub proof fn subscriptions_are_not_blamed(base: Seq<char>, status: u16)
    requires
        status == 401 || status == 403 || status < 400,
    ensures
        ({
            let url = "gateway: "@ + (versioned(base) + "/models"@);
            let n = decimal_of(status as nat);
            probe_text(base, Ok(status), AuthMode::Subscription) == (if status < 400 {
                url + " reachable (HTTP "@ + n + ")"@
            } else {
                url + " reachable but the endpoint is not authenticated (HTTP "@ + n
                    + ") — hotl holds no credential in subscription mode; re-authenticate the endpoint"@
            })
        }),
{
}

/// A base that carries its version already, and one that does not, are probed
/// at the same place; so is one with slashes after it.
pub proof fn bases_are_normalized(base: Seq<char>)
    ensures
        versioned(versioned(base)) == versioned(base),
        versioned(base.push('/')) == versioned(base),
{
    reveal_strlit("/v1");
    let b = unslashed(base);
    unslashed_ends(base);
    let v = versioned(base);
    if has_suffix(b, "/v1"@) {
        assert(unslashed(b) == b);
    } else {
        assert(v.last() == '1');
        assert(unslashed(v) == v);
        assert(v.skip(v.len() - 3) =~= "/v1"@);
    }
    assert(base.push('/').drop_last() =~= base);
}

proof fn unslashed_ends(s: Seq<char>)
    ensures
        unslashed(s).len() > 0 ==> unslashed(s).last() != '/',
    decreases s.len(),
{
    if s.len() > 0 && s.last() == '/' {
        unslashed_ends(s.drop_last());
    }
}

proof fn line_stays(v: Seq<CheckV>, n: nat, i: int)
    requires
        0 <= i < n <= v.len(),
    ensures
        occurs(check_lines(v, n), "  "@ + tag(v[i].status) + "  "@ + v[i].line + "\n"@),
    decreases n,
{
    let before = check_lines(v, (n - 1) as nat);
    let c = v[n - 1];
    group6(before, "  "@, tag(c.status), "  "@, c.line, "\n"@);
    if i < n - 1 {
        line_stays(v, (n - 1) as nat, i);
    }
    occurs_on(
        before,
        "  "@ + tag(c.status) + "  "@ + c.line + "\n"@,
        "  "@ + tag(v[i].status) + "  "@ + v[i].line + "\n"@,
    );
}

/// The report gives every check a line, marked by how it went: a failed one in
/// capitals.
pub proof fn every_check_is_reported(v: Seq<CheckV>, i: int)
    requires
        0 <= i < v.len(),
    ensures
        v[i].status == Status::Pass ==> occurs(
            check_lines(v, v.len()),
            "  "@ + "ok  "@ + "  "@ + v[i].line + "\n"@,
        ),
        v[i].status == Status::Warn ==> occurs(
            check_lines(v, v.len()),
            "  "@ + "warn"@ + "  "@ + v[i].line + "\n"@,
        ),
        v[i].status == Status::Fail ==> occurs(
            check_lines(v, v.len()),
            "  "@ + "FAIL"@ + "  "@ + v[i].line + "\n"@,
        ) && any_failed(v),
{
    line_stays(v, v.len(), i);
}

/// The models are asked for under the base address, without slashes at its end and
/// with the version once; and what came of it is told with the status.
pub proof fn probes_ask_the_versioned_address(base: Seq<char>, status: u16, error: Seq<char>)
    ensures
        has_suffix(versioned(base), "/v1"@),
        !has_suffix(base, "/"@) && !has_suffix(base, "/v1"@) ==> versioned(base) == base + "/v1"@,
        ("gateway: "@ + (versioned(base) + "/models"@)).is_prefix_of(
            probe_text(base, Ok(status), AuthMode::ApiKey),
        ),
        occurs(probe_text(base, Ok(status), AuthMode::ApiKey), decimal_of(status as nat)),
        occurs(probe_text(base, Ok(status), AuthMode::Subscription), decimal_of(status as nat)),
        occurs(probe_text(base, Err(error), AuthMode::ApiKey), error),
        status < 400 ==> has_suffix(
            probe_text(base, Ok(status), AuthMode::ApiKey),
            ", key accepted)"@,
        ),
        status == 401 || status == 403 ==> has_suffix(
            probe_text(base, Ok(status), AuthMode::ApiKey),
            ") — check the key source"@,
        ),
{
    reveal_strlit("/");
    reveal_strlit("/v1");
    let b = unslashed(base);
    if !has_suffix(b, "/v1"@) {
        let v = b + "/v1"@;
        assert(v.subrange(v.len() - 3, v.len() as int) =~= "/v1"@);
        assert(v.skip(v.len() - 3) =~= "/v1"@);
    }
    if !has_suffix(base, "/"@) {
        if base.len() > 0 && base.last() == '/' {
            assert(base.skip(base.len() - 1) =~= "/"@);
            assert(base.subrange(base.len() - 1, base.len() as int) =~= "/"@);
        }
        assert(b == base);
    }
    let url = "gateway: "@ + (versioned(base) + "/models"@);
    let n = decimal_of(status as nat);
    let x = probe_text(base, Ok(status), AuthMode::ApiKey);
    let y = probe_text(base, Ok(status), AuthMode::Subscription);
    assert(x.take(url.len() as int) =~= url);
    let z = probe_text(base, Err(error), AuthMode::ApiKey);
    let k = (url + " unreachable ("@).len() as int;
    assert(z.subrange(k, k + error.len()) =~= error);
    assert(crate::text::occurs_at(z, error, k));
    let ok = ", key accepted)"@;
    let no = ") — check the key source"@;
    if status < 400 {
        assert(x.skip(x.len() - ok.len()) =~= ok);
        assert(x.subrange(x.len() - ok.len(), x.len() as int) =~= ok);
    }
    if status == 401 || status == 403 {
        assert(x.skip(x.len() - no.len()) =~= no);
        assert(x.subrange(x.len() - no.len(), x.len() as int) =~= no);
    }
    let ha = url + " reachable (HTTP "@;
    let hb = url + " reachable but the endpoint is not authenticated (HTTP "@;
    let hc = url + " reachable but rejected the key (HTTP "@;
    let hd = url + " responded HTTP "@;
    occurs_on(ha, n, n);
    occurs_on(hb, n, n);
    occurs_on(hc, n, n);
    occurs_on(hd, n, n);
    occurs_on(ha + n, ")"@, n);
    occurs_on(ha + n, ", key accepted)"@, n);
    occurs_on(
        hb + n,
        ") — hotl holds no credential in subscription mode; re-authenticate the endpoint"@,
        n,
    );
    occurs_on(hc + n, ") — check the key source"@, n);
}

proof fn deny_stays(paths: Seq<Seq<char>>, why: Seq<char>, n: nat, i: int)
    requires
        0 <= i < n <= paths.len(),
    ensures
        occurs(deny_rows(paths, why, n), "\n        "@ + paths[i] + "    "@ + why),
    decreases n,
{
    let before = deny_rows(paths, why, (n - 1) as nat);
    group5(before, "\n        "@, paths[n - 1], "    "@, why);
    if i < n - 1 {
        deny_stays(paths, why, (n - 1) as nat, i);
    }
    occurs_on(
        before,
        "\n        "@ + paths[n - 1] + "    "@ + why,
        "\n        "@ + paths[i] + "    "@ + why,
    );
}

proof fn rule_stays(paths: Seq<Seq<char>>, rules: Seq<(Seq<char>, Seq<char>)>, n: nat, i: int)
    requires
        0 <= i < n <= paths.len(),
    ensures
        occurs(
            rule_rows(paths, rules, n),
            "\n        "@ + paths[i] + "    "@ + rule_for(rules, paths[i]),
        ),
    decreases n,
{
    let before = rule_rows(paths, rules, (n - 1) as nat);
    let p = paths[n - 1];
    group5(before, "\n        "@, p, "    "@, rule_for(rules, p));
    if i < n - 1 {
        rule_stays(paths, rules, (n - 1) as nat, i);
    }
    occurs_on(
        before,
        "\n        "@ + p + "    "@ + rule_for(rules, p),
        "\n        "@ + paths[i] + "    "@ + rule_for(rules, paths[i]),
    );
}

proof fn unreached_stays(v: Seq<Seq<char>>, n: nat, i: int)
    requires
        0 <= i < n <= v.len(),
    ensures
        occurs(unreached_rows(v, n), "\n          "@ + v[i]),
    decreases n,
{
    let before = unreached_rows(v, (n - 1) as nat);
    group3(before, "\n          "@, v[n - 1]);
    if i < n - 1 {
        unreached_stays(v, (n - 1) as nat, i);
    }
    occurs_on(before, "\n          "@ + v[n - 1], "\n          "@ + v[i]);
}

/// The report on containment names every path that shell commands cannot read, with
/// the reason, and every one that the sandbox does not reach.
pub proof fn every_denied_path_is_reported(
    deny: ReadDeny,
    rules: Seq<(Seq<char>, Seq<char>)>,
    unreached: Seq<Seq<char>>,
    i: int,
)
    ensures
        0 <= i < deny.always@.len() ==> occurs(
            containment_text(deny, rules, unreached),
            "\n        "@ + deny.always@[i]@ + "    "@ + "built-in, not liftable"@,
        ),
        0 <= i < deny.secrets@.len() ==> occurs(
            containment_text(deny, rules, unreached),
            "\n        "@ + deny.secrets@[i]@ + "    "@ + "hotl default (lift: [sandbox].readable)"@,
        ),
        0 <= i < deny.rules@.len() ==> occurs(
            containment_text(deny, rules, unreached),
            "\n        "@ + deny.rules@[i]@ + "    "@ + rule_for(rules, deny.rules@[i]@),
        ),
        0 <= i < unreached.len() ==> occurs(
            containment_text(deny, rules, unreached),
            "\n          "@ + unreached[i],
        ),
{
    let h = "containment · reads denied to shell commands"@;
    let a = deny_rows(texts(deny.always@), "built-in, not liftable"@, deny.always@.len());
    let b = deny_rows(
        texts(deny.secrets@),
        "hotl default (lift: [sandbox].readable)"@,
        deny.secrets@.len(),
    );
    let c = rule_rows(texts(deny.rules@), rules, deny.rules@.len());
    let d = if deny.secrets@.len() == 0 {
        "\n        (every credential path lifted by [sandbox].readable)"@
    } else {
        ""@
    };
    let e = unreached_block(unreached);
    if 0 <= i < deny.always@.len() {
        let x = "\n        "@ + deny.always@[i]@ + "    "@ + "built-in, not liftable"@;
        deny_stays(texts(deny.always@), "built-in, not liftable"@, deny.always@.len(), i);
        assert(texts(deny.always@)[i] == deny.always@[i]@);
        occurs_on(h, a, x);
        occurs_on(h + a, b, x);
        occurs_on(h + a + b, c, x);
        occurs_on(h + a + b + c, d, x);
        occurs_on(h + a + b + c + d, e, x);
    }
    if 0 <= i < deny.secrets@.len() {
        let x = "\n        "@ + deny.secrets@[i]@ + "    "@
            + "hotl default (lift: [sandbox].readable)"@;
        deny_stays(
            texts(deny.secrets@),
            "hotl default (lift: [sandbox].readable)"@,
            deny.secrets@.len(),
            i,
        );
        assert(texts(deny.secrets@)[i] == deny.secrets@[i]@);
        occurs_on(h + a, b, x);
        occurs_on(h + a + b, c, x);
        occurs_on(h + a + b + c, d, x);
        occurs_on(h + a + b + c + d, e, x);
    }
    if 0 <= i < deny.rules@.len() {
        let x = "\n        "@ + deny.rules@[i]@ + "    "@ + rule_for(rules, deny.rules@[i]@);
        rule_stays(texts(deny.rules@), rules, deny.rules@.len(), i);
        assert(texts(deny.rules@)[i] == deny.rules@[i]@);
        occurs_on(h + a + b, c, x);
        occurs_on(h + a + b + c, d, x);
        occurs_on(h + a + b + c + d, e, x);
    }
    if 0 <= i < unreached.len() {
        let x = "\n          "@ + unreached[i];
        unreached_stays(unreached, unreached.len(), i);
        let m = "\n        not reaching shell commands ("@ + decimal_of(unreached.len())
            + ") — still enforced for hotl's own tools:"@;
        occurs_on(m, unreached_rows(unreached, unreached.len()), x);
        occurs_on(h + a + b + c + d, e, x);
    }
}

proof fn doubts_are(head: Seq<char>, v: Seq<Seq<char>>, tail: Seq<char>, n: nat)
    requires
        n <= v.len(),
    ensures
        doubts(head, v, tail, n).len() == n,
        forall|i: int|
            0 <= i < n ==> #[trigger] doubts(head, v, tail, n)[i] == (CheckV {
                status: Status::Warn,
                line: head + v[i] + tail,
            }),
    decreases n,
{
    if n > 0 {
        doubts_are(head, v, tail, (n - 1) as nat);
    }
}

/// The checks of the sandbox start with one for each of its warnings; next come what
/// is denied, the shell and the floor, which pass only where something is denied, a
/// shell was found and the floor is enforced; next the carve where it was probed, and
/// last each path that it could not open.
pub proof fn the_sandbox_is_checked_whole(s: SandboxReport)
    ensures
        ({
            let all = sandbox_checks(s);
            let w = s.warnings@.len() as int;
            let f = s.carve_failures@.len() as int;
            let p: int = if s.carve is Some {
                1
            } else {
                0
            };
            &&& all.len() == w + 3 + p + f
            &&& forall|i: int|
                0 <= i < w ==> (#[trigger] all[i]).status == Status::Warn && all[i].line
                    == "sandbox: "@ + s.warnings@[i]@ + ""@
            &&& all[w].status == Status::Pass <==> s.read_deny.always@.len() > 0
                || s.read_deny.secrets@.len() > 0 || s.read_deny.rules@.len() > 0
            &&& all[w + 1].status == Status::Pass <==> s.shell is Ok
            &&& all[w + 2].status == Status::Pass <==> s.status is Enforced
            &&& s.carve matches Some(held) ==> (all[w + 3].status == Status::Pass <==> held)
            &&& forall|i: int|
                0 <= i < f ==> (#[trigger] all[w + 3 + p + i]).status == Status::Warn
                    && crate::text::occurs(all[w + 3 + p + i].line, s.carve_failures@[i]@)
            &&& forall|i: int| 0 <= i < all.len() ==> (#[trigger] all[i]).status != Status::Fail
        }),
{
    let all = sandbox_checks(s);
    let w = s.warnings@.len() as int;
    let f = s.carve_failures@.len() as int;
    let p: int = if s.carve is Some {
        1
    } else {
        0
    };
    doubts_are("sandbox: "@, texts(s.warnings@), ""@, s.warnings@.len());
    let h = "sandbox: the read carve could not open "@;
    let t = " — reads under it are denied to sandboxed commands, which is fail-closed but was not asked for"@;
    doubts_are(h, texts(s.carve_failures@), t, s.carve_failures@.len());
    let tail = doubts(h, texts(s.carve_failures@), t, s.carve_failures@.len());
    assert forall|i: int| 0 <= i < f implies (#[trigger] all[w + 3 + p + i]).status == Status::Warn
        && crate::text::occurs(all[w + 3 + p + i].line, s.carve_failures@[i]@) by {
        assert(all[w + 3 + p + i] == tail[i]);
        let x = s.carve_failures@[i]@;
        occurs_on(h, x, x);
        occurs_on(h + x, t, x);
    }
    assert forall|i: int| 0 <= i < all.len() implies (#[trigger] all[i]).status != Status::Fail by {
        if i >= w + 3 + p {
            assert(all[i] == tail[i - w - 3 - p]);
        }
    }
}

/// Egress fails the check exactly where its setting is warned of; a list is told by
/// how many hosts it has, those that come with it, and the owner's own, by name.
pub proof fn egress_is_told_as_it_is(
    policy: EgressPolicyV,
    warning: Option<Seq<char>>,
    starter: nat,
    starter_list: Seq<Seq<char>>,
)
    ensures
        ({
            let all = egress_lines(policy, warning, starter, starter_list);
            let k: int = if warning is Some {
                1
            } else {
                0
            };
            &&& any_failed(all) <==> warning is Some
            &&& warning matches Some(w) ==> all[0].status == Status::Fail && w.is_suffix_of(
                all[0].line,
            )
            &&& policy matches EgressPolicyV::Allowlist(hosts) ==> {
                &&& all.len() == k + 2 + (if starter > 0 {
                    1int
                } else {
                    0
                })
                &&& crate::text::occurs(all[k].line, decimal_of(hosts.len()))
                &&& starter > 0 ==> joined(starter_list, ", "@).is_suffix_of(all[k + 1].line)
                &&& starter < hosts.len() ==> joined(
                    hosts.skip(starter as int),
                    ", "@,
                ).is_suffix_of(all.last().line)
            }
            &&& !(policy is Allowlist) ==> all.len() == k + 1
        }),
{
    let all = egress_lines(policy, warning, starter, starter_list);
    let k: int = if warning is Some {
        1
    } else {
        0
    };
    if let Some(w) = warning {
        let l = "egress: "@ + w;
        assert(l.skip(l.len() - w.len()) =~= w);
        assert(all[0] == bad(l));
    }
    if let EgressPolicyV::Allowlist(hosts) = policy {
        let n = decimal_of(hosts.len());
        let h = "egress: allowlist — "@;
        occurs_on(h, n, n);
        occurs_on(h + n, " host total"@, n);
        occurs_on(h + n, " hosts total"@, n);
        let j = joined(starter_list, ", "@);
        if starter > 0 {
            let l = all[k + 1].line;
            assert(l.skip(l.len() - j.len()) =~= j);
        }
        if starter < hosts.len() {
            let m = joined(hosts.skip(starter as int), ", "@);
            let l = all.last().line;
            assert(l.skip(l.len() - m.len()) =~= m);
        }
    }
}

/// Every warning of the rules is a doubt, but for those that are only notes.
pub proof fn rule_warnings_are_doubts(v: Seq<Seq<char>>, n: nat)
    requires
        n <= v.len(),
    ensures
        rule_doubts(v, n) == v.take(n as int).filter(
            |w: Seq<char>| !has_prefix(w, "note: "@),
        ).map_values(|w: Seq<char>| CheckV { status: Status::Warn, line: "rules: "@ + w }),
    decreases n,
{
    reveal(Seq::filter);
    let grave = |w: Seq<char>| !has_prefix(w, "note: "@);
    let f = |w: Seq<char>| CheckV { status: Status::Warn, line: "rules: "@ + w };
    if n == 0 {
        assert(v.take(0).filter(grave).map_values(f) =~= Seq::<CheckV>::empty());
    } else {
        rule_warnings_are_doubts(v, (n - 1) as nat);
        let t = v.take(n - 1);
        assert(v.take(n as int).drop_last() =~= t);
        assert(v.take(n as int).last() == v[n - 1]);
        if grave(v[n - 1]) {
            assert(t.filter(grave).push(v[n - 1]).map_values(f) =~= t.filter(grave).map_values(
                f,
            ).push(f(v[n - 1])));
        }
    }
}

proof fn states_count(v: Seq<TrustState>, want: TrustState, n: nat)
    requires
        n <= v.len(),
    ensures
        state_count(v, want, n) == v.take(n as int).filter(|s: TrustState| s == want).len(),
    decreases n,
{
    reveal(Seq::filter);
    if n > 0 {
        states_count(v, want, (n - 1) as nat);
        assert(v.take(n as int).drop_last() =~= v.take(n - 1));
        assert(v.take(n as int).last() == v[n - 1]);
    }
}

proof fn unreadable_named(servers: Seq<ServerV>, states: Seq<TrustState>, n: nat, i: int)
    requires
        0 <= i < n <= servers.len(),
        states.len() == servers.len(),
        states[i] == TrustState::Unhashable,
    ensures
        exists|k: int|
            0 <= k < unreadable_servers(servers, states, n).len() && (
            #[trigger] unreadable_servers(servers, states, n)[k]).status == Status::Warn
                && servers[i].name.is_suffix_of(unreadable_servers(servers, states, n)[k].line),
    decreases n,
{
    let all = unreadable_servers(servers, states, n);
    let before = unreadable_servers(servers, states, (n - 1) as nat);
    let name = servers[i].name;
    if i == n - 1 {
        let l = all.last().line;
        assert(l.skip(l.len() - name.len()) =~= name);
        assert(all[all.len() - 1].status == Status::Warn);
    } else {
        unreadable_named(servers, states, (n - 1) as nat, i);
        let k = choose|k: int|
            0 <= k < before.len() && (#[trigger] before[k]).status == Status::Warn
                && name.is_suffix_of(before[k].line);
        assert(all[k] == before[k]);
    }
}

/// The tool servers are told by how many there are, how many are trusted and how many
/// are screened first; one whose program cannot be read is a doubt that names it, and
/// so is a grant for one that is no longer there.
pub proof fn tool_servers_are_told(
    servers: Seq<ServerV>,
    states: Seq<TrustState>,
    warnings: Seq<Seq<char>>,
    grants: Seq<Seq<char>>,
    i: int,
)
    requires
        states.len() == servers.len(),
    ensures
        ({
            let all = mcp_checks(servers, states, warnings, grants);
            let w = warnings.len() as int;
            let left = stale(grants, servers);
            &&& all.len() >= w + 1 + left.len()
            &&& forall|k: int|
                0 <= k < w ==> (#[trigger] all[k]).status == Status::Warn && all[k].line == "mcp: "@
                    + warnings[k] + ""@
            &&& servers.len() > 0 ==> all[w] == (CheckV {
                status: Status::Pass,
                line: "mcp: "@ + decimal_of(servers.len()) + " server(s) configured ("@ + decimal_of(
                    states.filter(|s: TrustState| s == TrustState::Trusted).len(),
                ) + " trusted, "@ + decimal_of(
                    states.filter(|s: TrustState| s == TrustState::Untrusted).len(),
                ) + " screen on first use)"@,
            })
            &&& 0 <= i < servers.len() && states[i] == TrustState::Unhashable ==> exists|k: int|
                0 <= k < all.len() && (#[trigger] all[k]).status == Status::Warn
                    && servers[i].name.is_suffix_of(all[k].line)
            &&& forall|k: int|
                0 <= k < left.len() ==> (#[trigger] all[all.len() - left.len() + k]).line == "mcp: "@
                    + stale_note(left[k])
        }),
{
    let all = mcp_checks(servers, states, warnings, grants);
    let w = warnings.len() as int;
    let left = stale(grants, servers);
    doubts_are("mcp: "@, warnings, ""@, warnings.len());
    stale_are(left, left.len());
    states_count(states, TrustState::Trusted, states.len());
    states_count(states, TrustState::Untrusted, states.len());
    assert(states.take(states.len() as int) =~= states);
    let u = unreadable_servers(servers, states, servers.len());
    if 0 <= i < servers.len() && states[i] == TrustState::Unhashable {
        unreadable_named(servers, states, servers.len(), i);
        let k = choose|k: int|
            0 <= k < u.len() && (#[trigger] u[k]).status == Status::Warn
                && servers[i].name.is_suffix_of(u[k].line);
        assert(all[w + 1 + k] == u[k]);
    }
    let s = stale_checks(left, left.len());
    assert forall|k: int| 0 <= k < left.len() implies (
    #[trigger] all[all.len() - left.len() + k]).line == "mcp: "@ + stale_note(left[k]) by {
        assert(all[all.len() - left.len() + k] == s[k]);
    }
}

proof fn stale_are(v: Seq<Seq<char>>, n: nat)
    requires
        n <= v.len(),
    ensures
        stale_checks(v, n).len() == n,
        forall|i: int|
            0 <= i < n ==> (#[trigger] stale_checks(v, n)[i]).line == "mcp: "@ + stale_note(v[i]),
    decreases n,
{
    if n > 0 {
        stale_are(v, (n - 1) as nat);
    }
}

/// The source of the key is told as it is: none of one's own, a helper, or a fixed one.
pub proof fn key_sources_are_told(auth: AuthMode, refreshable: bool)
    ensures
        auth == AuthMode::Subscription ==> source_words(auth, refreshable)
            == "subscription — no credential held"@,
        auth != AuthMode::Subscription && refreshable ==> source_words(auth, refreshable)
            == "helper"@,
        auth != AuthMode::Subscription && !refreshable ==> source_words(auth, refreshable)
            == "static env key"@,
{
}

/// A fault is told by its first line.
pub proof fn faults_are_told_by_their_first_line(s: Seq<char>)
    ensures
        lines_of(s).len() > 0 ==> first_line(s) == lines_of(s)[0],
        lines_of(s).len() == 0 ==> first_line(s) == s,
{
}

/// The rules are in doubt only where their file could not be read, and the doubt says
/// why.
pub proof fn unreadable_rules_are_doubts(f: RuleFile)
    ensures
        rule_file_check(f).status == Status::Warn <==> f is Unreadable,
        rule_file_check(f).status != Status::Fail,
        f matches RuleFile::Unreadable(e) ==> e@.is_suffix_of(rule_file_check(f).line),
{
    if let RuleFile::Unreadable(e) = f {
        let l = rule_file_check(f).line;
        assert(l.skip(l.len() - e@.len()) =~= e@);
    }
}

} // verus!
