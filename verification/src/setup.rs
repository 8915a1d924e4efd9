//! First-run setup, file references in prompts, and version comparison.
use crate::text::{
    decimal_of, first_index, parse_unsigned, parsed_unsigned, pieces, split, texts, to_chars,
};
use vstd::prelude::*;
use vstd::string::*;

verus! {

/// The shipped configuration. Only read-only conveniences are allowed; what
/// runs code or writes files is left for the owner to enable.
pub const DEFAULT_CONFIG: &'static str = "\
# ~/.config/hotl/config.toml — the single hotl config file.
# Docs: https://nrakochy.github.io/hotl/
# Every hand-editable setting lives here. Env vars override these (HOTL_MODEL,
# ANTHROPIC_API_KEY / OPENAI_API_KEY, HOTL_OPENAI_BASE_URL,
# HOTL_ANTHROPIC_BASE_URL, HOTL_PROVIDER_AUTH, HOTL_SANDBOX=off).

[provider]
# provider/model. `openai/…` covers any OpenAI-compatible endpoint.
# model = \"openai/gpt-5\"
# base_url = \"http://localhost:11434/v1\"   # endpoint for the active provider
# auth = \"subscription\"                    # endpoint authenticates for you;
#                                          # hotl holds no key (needs base_url)
# fast_model = \"...\"                        # cheap model for compaction summaries
# Run a command to obtain the API key (stdout = key). Beats the static env
# key when set. For gateways with short-lived keys, see
# https://nrakochy.github.io/hotl/gateway/
# api_key_helper = \"my-mint-key\"
# api_key_helper_ttl_secs = 300

[context]
# window = 200000            # your model's context size, in tokens
# evict_tokens = 20000       # offload tool results larger than this (0 disables)
# compaction_reset = false   # fresh-slate compaction instead of in-place
# show_used_pct = true       # show context-fullness in each turn's status

[behavior]
# sandbox = true             # false disables the bash sandbox floor
# vim_mode = true            # vim-style keys in the console's input editor

[permissions]
mode = \"auto\"   # no per-action y/N; protected paths + sandbox still guard.
                # \"ask\" = approve every mutating/executing call. A
                # security-enforced build ignores this key entirely.

[skills]
# Skills of a compatible coding agent (its skills dir and the plugin cache) are
# read alongside the hotl skills dir; that agent's name = false stops it.
# [skills.marketplaces]       # extra skill sources: name = git URL or local path
# acme = \"https://github.com/acme/skills.git\"   # managed: hotl skills add/update
# team = \"~/work/team-skills\"                   # local path: read in place

[network]
# Egress for bash commands: \"open\" (default), \"off\" (loopback + unix sockets
# only), or \"allowlist\" (loopback + the hosts below, via a local proxy).
# egress = \"open\"
# allow = [\"github.com\", \"*.crates.io\"]

[retention]
# Prune old sessions/shadows/blobs (run `hotl gc`, or auto at startup once set).
# max_age_days = 30
# max_sessions = 200

[history]
# Console prompt recall (Up/Down, Ctrl-R search), persisted across sessions.
# enabled = true                # false: recall works in-session, nothing on disk
# path = \"...\"                   # default: <xdg-data>/hotl/history.jsonl (~ expanded)
# max_entries = 1000            # oldest entries trimmed past this
# max_bytes = 2097152           # ...and past this size (2 MiB); smaller cap wins

# --- allow-rules: auto-approve trusted tool calls (TRUST GRANTS, not scopes) ---
# Anything not matched still asks. Protected paths (ssh/creds/build.rs/git hooks)
# ALWAYS ask, rule or not. Read-only conveniences are safe to auto-allow:
[[allow]]
tool = \"bash\"
prefix = \"ls \"

[[allow]]
tool = \"bash\"
prefix = \"cat \"

[[allow]]
tool = \"bash\"
prefix = \"git status\"

[[allow]]
tool = \"bash\"
prefix = \"git diff\"

[[allow]]
tool = \"bash\"
prefix = \"git log\"

# build/test runs code — opt in deliberately:
# [[allow]]
# tool = \"bash\"
# prefix = \"cargo test\"
#
# [[allow]]
# tool = \"edit\"
# path_prefix = \"src/\"

# --- MCP tool servers (first use asks, shows the binary + hash) ---
# [[mcp]]
# name = \"docs\"
# command = \"/usr/local/bin/docs-mcp\"
# args = [\"--stdio\"]
# description = \"project documentation search\"

# --- post-edit diagnostics: run your check command after edits ---
# [diagnostics]
# rs = \"cargo check -q --message-format=short\"

# --- hooks: intercept tool calls (pre_tool: deny/rewrite; post_tool: replace) ---
# [[hook]]
# event = \"pre_tool\"
# command = \"/usr/local/bin/guard\"
";

/// What became of the configuration file.
#[derive(Debug)]
pub enum Wrote {
    Created,
    Exists,
    Failed(String),
}

/// Whether `hotl setup` writes the file: it overwrites only when forced.
pub fn should_write(present: bool, force: bool) -> (r: bool)
    ensures
        r == (!present || force),
{
    !present || force
}

/// What `hotl setup` prints, and its exit code.
pub open spec fn setup_text(wrote: Wrote, file: Seq<char>, dir: Seq<char>) -> (Seq<char>, int) {
    let tail = "config dir: "@ + dir
        + "\nnext: set a provider in [provider] (or HOTL_MODEL + a key), then `hotl doctor` to verify."@;
    match wrote {
        Wrote::Created => ("wrote "@ + file + "\n"@ + tail, 0),
        Wrote::Exists => (
            "kept existing "@ + file + " (use --force to overwrite)\n"@ + tail,
            0,
        ),
        Wrote::Failed(e) => ("hotl: could not write "@ + file + ": "@ + e@, 1),
    }
}

/// What `hotl setup` prints, and its exit code.
pub fn setup_report(wrote: &Wrote, file: &str, dir: &str) -> (r: (String, i32))
    ensures
        (r.0@, r.1 as int) == setup_text(*wrote, file@, dir@),
{
    let mut tail = "config dir: ".to_owned();
    tail.append(dir);
    tail.append(
        "\nnext: set a provider in [provider] (or HOTL_MODEL + a key), then `hotl doctor` to verify.",
    );
    match wrote {
        Wrote::Created => {
            let mut s = "wrote ".to_owned();
            s.append(file);
            s.append("\n");
            s.append(tail.as_str());
            (s, 0)
        },
        Wrote::Exists => {
            let mut s = "kept existing ".to_owned();
            s.append(file);
            s.append(" (use --force to overwrite)\n");
            s.append(tail.as_str());
            (s, 0)
        },
        Wrote::Failed(e) => {
            let mut s = "hotl: could not write ".to_owned();
            s.append(file);
            s.append(": ");
            s.append(e.as_str());
            (s, 1)
        },
    }
}

/// What `hotl setup` prints where the configuration directory cannot be created,
/// and its exit code.
pub fn setup_dir_failure(dir: &str, error: &str) -> (r: (String, i32))
    ensures
        r.0@ == "hotl: could not create "@ + dir@ + ": "@ + error@,
        r.1 == 1,
{
    let mut s = "hotl: could not create ".to_owned();
    s.append(dir);
    s.append(": ");
    s.append(error);
    (s, 1)
}

/// The hint of a first run.
pub open spec fn first_run_text(dir: Seq<char>) -> Seq<char> {
    "first run — no config at "@ + dir
        + ". `hotl setup` writes safe defaults; `hotl doctor` checks your setup."@
}

/// One line for a first run, where no configuration exists.
pub fn first_run_hint(config_dir: &str, present: bool) -> (r: Option<String>)
    ensures
        match r {
            Some(s) => !present && s@ == first_run_text(config_dir@),
            None => present,
        },
{
    if present {
        return None;
    }
    let mut s = "first run — no config at ".to_owned();
    s.append(config_dir);
    s.append(". `hotl setup` writes safe defaults; `hotl doctor` checks your setup.");
    Some(s)
}

/// Where `@[` first stands in `s`.
pub open spec fn ref_start(s: Seq<char>) -> Option<int>
    decreases s.len(),
{
    if s.len() < 2 {
        None
    } else if s[0] == '@' && s[1] == '[' {
        Some(0)
    } else {
        match ref_start(s.drop_first()) {
            Some(i) => Some(i + 1),
            None => None,
        }
    }
}

proof fn ref_start_bound(s: Seq<char>)
    ensures
        match ref_start(s) {
            Some(i) => 0 <= i && i + 2 <= s.len(),
            None => true,
        },
    decreases s.len(),
{
    if s.len() >= 2 && !(s[0] == '@' && s[1] == '[') {
        ref_start_bound(s.drop_first());
    }
}

/// The first file reference of a text: the text before it, the path, and the
/// text after it. An unclosed one is none.
pub open spec fn first_ref(s: Seq<char>) -> Option<(Seq<char>, Seq<char>, Seq<char>)> {
    match ref_start(s) {
        None => None,
        Some(i) => {
            let after = s.skip(i + 2);
            match first_index(after, ']') {
                None => None,
                Some(e) => Some((s.take(i), after.take(e), after.skip(e + 1))),
            }
        },
    }
}

proof fn first_ref_shrinks(s: Seq<char>)
    ensures
        match first_ref(s) {
            Some((a, p, b)) => a.len() + p.len() + b.len() + 3 == s.len(),
            None => true,
        },
{
    ref_start_bound(s);
    match ref_start(s) {
        None => {},
        Some(i) => {
            crate::text::first_index_shape(s.skip(i + 2), ']');
        },
    }
}

/// The paths that a text refers to, in order.
pub open spec fn refs_of(s: Seq<char>) -> Seq<Seq<char>>
    decreases s.len(),
{
    match first_ref(s) {
        None => Seq::empty(),
        Some((a, p, b)) => if b.len() < s.len() {
            seq![p] + refs_of(b)
        } else {
            Seq::empty()
        },
    }
}

/// What stands in for a reference: the file's content in an element that names
/// it, or the token itself with a note.
pub open spec fn shown(path: Seq<char>, content: Result<Seq<char>, Seq<char>>) -> Seq<char> {
    match content {
        Ok(c) => "\n<file path=\""@ + path + "\">\n"@ + c + "\n</file>\n"@,
        Err(e) => "@["@ + path + "] (could not read: "@ + e + ")"@,
    }
}

/// A text with its file references replaced, given what was read for each.
pub open spec fn expanded(s: Seq<char>, contents: Seq<Result<Seq<char>, Seq<char>>>) -> Seq<char>
    decreases s.len(),
{
    match first_ref(s) {
        None => s,
        Some((a, p, b)) => if b.len() < s.len() && contents.len() > 0 {
            a + shown(p, contents[0]) + expanded(b, contents.skip(1))
        } else {
            s
        },
    }
}

/// The views of what was read.
pub open spec fn readings(v: Seq<Result<String, String>>) -> Seq<Result<Seq<char>, Seq<char>>> {
    Seq::new(
        v.len(),
        |i: int|
            match v[i] {
                Ok(c) => Ok(c@),
                Err(e) => Err(e@),
            },
    )
}

/// Finds the first file reference of a text.
fn find_ref<'a>(s: &'a str) -> (r: Option<(&'a str, &'a str, &'a str)>)
    ensures
        match r {
            Some((a, p, b)) => first_ref(s@) == Some((a@, p@, b@)) && b@.len() < s@.len(),
            None => first_ref(s@) is None,
        },
{
    let v = to_chars(s);
    let n: usize = v.len();
    let mut i: usize = 0;
    assert(s@.skip(0) =~= s@);
    let ghost none = ref_start(s@);
    while i + 1 < n && !(v[i] == '@' && v[i + 1] == '[')
        invariant
            n == v.len(),
            v@ == s@,
            0 <= i <= n,
            i == 0 || i < n,
            match ref_start(s@.skip(i as int)) {
                Some(k) => ref_start(s@) == Some(i + k),
                None => ref_start(s@) is None,
            },
        decreases n - i,
    {
        assert(s@.skip(i as int).drop_first() =~= s@.skip(i + 1));
        i = i + 1;
    }
    if i + 1 >= n {
        return None;
    }
    assert(ref_start(s@.skip(i as int)) == Some(0int));
    let after = s.substring_char(i + 2, n);
    assert(after@ =~= s@.skip(i + 2));
    match crate::text::find_char(after, ']') {
        None => None,
        Some(e) => {
            let m: usize = after.unicode_len();
            let a = s.substring_char(0, i);
            let p = after.substring_char(0, e);
            let b = after.substring_char(e + 1, m);
            assert(a@ =~= s@.take(i as int));
            assert(p@ =~= after@.take(e as int));
            assert(b@ =~= after@.skip(e + 1));
            Some((a, p, b))
        },
    }
}

/// The paths that a prompt refers to with `@[path]`, in order.
pub fn file_refs(text: &str) -> (r: Vec<String>)
    ensures
        texts(r@) == refs_of(text@),
{
    let mut out: Vec<String> = Vec::new();
    let mut rest = text;
    assert(texts(out@) =~= Seq::empty());
    assert(texts(out@) + refs_of(rest@) =~= refs_of(text@));
    loop
        invariant
            texts(out@) + refs_of(rest@) == refs_of(text@),
        ensures
            texts(out@) == refs_of(text@),
        decreases rest@.len(),
    {
        match find_ref(rest) {
            None => {
                assert(texts(out@) + refs_of(rest@) =~= texts(out@));
                break;
            },
            Some((_a, p, b)) => {
                let ghost before = texts(out@);
                out.push(p.to_owned());
                assert(texts(out@) =~= before.push(p@));
                assert(before + refs_of(rest@) =~= texts(out@) + refs_of(b@));
                rest = b;
            },
        }
    }
    out
}

/// Replaces the `@[path]` tokens of a prompt by the files' contents. A file
/// that cannot be read leaves its token in place with a note. `contents` is
/// what was read for each of [`file_refs`], in order.
pub fn expand_file_refs(text: &str, contents: &[Result<String, String>]) -> (r: String)
    requires
        contents@.len() == refs_of(text@).len(),
    ensures
        r@ == expanded(text@, readings(contents@)),
{
    let mut out = String::new();
    let mut rest = text;
    let ghost all = readings(contents@);
    let mut k: usize = 0;
    assert(all.skip(0) =~= all);
    assert(out@ + expanded(rest@, all.skip(0)) =~= expanded(text@, all));
    loop
        invariant
            0 <= k <= contents.len(),
            all == readings(contents@),
            contents.len() - k == refs_of(rest@).len(),
            out@ + expanded(rest@, all.skip(k as int)) == expanded(text@, all),
        ensures
            out@ + rest@ == expanded(text@, all),
        decreases rest@.len(),
    {
        match find_ref(rest) {
            None => {
                break;
            },
            Some((a, p, b)) => {
                let ghost before = out@;
                assert(refs_of(rest@) =~= seq![p@] + refs_of(b@));
                assert(all.skip(k as int)[0] == all[k as int]);
                assert(all.skip(k as int).skip(1) =~= all.skip(k + 1));
                out.append(a);
                match &contents[k] {
                    Ok(c) => {
                        out.append("\n<file path=\"");
                        out.append(p);
                        out.append("\">\n");
                        out.append(c.as_str());
                        out.append("\n</file>\n");
                    },
                    Err(e) => {
                        out.append("@[");
                        out.append(p);
                        out.append("] (could not read: ");
                        out.append(e.as_str());
                        out.append(")");
                    },
                }
                assert(out@ =~= before + a@ + shown(p@, all[k as int]));
                assert(out@ + expanded(b@, all.skip(k + 1)) =~= before + expanded(
                    rest@,
                    all.skip(k as int),
                ));
                rest = b;
                k = k + 1;
            },
        }
    }
    out.append(rest);
    out
}

/// A prompt without a closed reference stays as it is.
pub proof fn plain_text_is_unchanged(
    s: Seq<char>,
    contents: Seq<Result<Seq<char>, Seq<char>>>,
)
    requires
        refs_of(s).len() == 0,
    ensures
        expanded(s, contents) == s,
{
    first_ref_shrinks(s);
}

/// The characters that part a version's numbers.
pub open spec fn is_version_mark(c: char) -> bool {
    c == '.' || c == '-' || c == '+'
}

/// `s` with every version mark made a full stop.
pub open spec fn dotted(s: Seq<char>) -> Seq<char> {
    Seq::new(
        s.len(),
        |i: int|
            if is_version_mark(s[i]) {
                '.'
            } else {
                s[i]
            },
    )
}

/// `s` without the letters `v` that it starts with.
pub open spec fn without_v(s: Seq<char>) -> Seq<char>
    decreases s.len(),
{
    if s.len() > 0 && s[0] == 'v' {
        without_v(s.drop_first())
    } else {
        s
    }
}

/// Number `i` of a version: zero where it is missing or not a number.
pub open spec fn version_number(p: Seq<Seq<char>>, i: int) -> nat {
    if i < p.len() {
        match parsed_unsigned(p[i], u64::MAX as nat) {
            Some(n) => n,
            None => 0,
        }
    } else {
        0
    }
}

/// The three numbers of a version.
pub open spec fn version_parts(v: Seq<char>) -> (nat, nat, nat) {
    let p = pieces(dotted(without_v(v)), '.');
    (version_number(p, 0), version_number(p, 1), version_number(p, 2))
}

/// `a` comes after `b`, number by number.
pub open spec fn comes_after(a: (nat, nat, nat), b: (nat, nat, nat)) -> bool {
    a.0 > b.0 || (a.0 == b.0 && (a.1 > b.1 || (a.1 == b.1 && a.2 > b.2)))
}

fn number_at(p: &Vec<String>, i: usize) -> (r: u64)
    ensures
        r == version_number(texts(p@), i as int),
{
    if i < p.len() {
        assert(texts(p@)[i as int] == p@[i as int]@);
        match parse_unsigned(p[i].as_str(), u64::MAX) {
            Some(n) => n,
            None => 0,
        }
    } else {
        0
    }
}

/// The three numbers of a version.
pub fn parts(v: &str) -> (r: (u64, u64, u64))
    ensures
        (r.0 as nat, r.1 as nat, r.2 as nat) == version_parts(v@),
{
    let c = to_chars(v);
    let mut i: usize = 0;
    assert(v@.skip(0) =~= v@);
    while i < c.len() && c[i] == 'v'
        invariant
            c@ == v@,
            0 <= i <= c.len(),
            without_v(v@) == without_v(v@.skip(i as int)),
        decreases c.len() - i,
    {
        assert(v@.skip(i as int).drop_first() =~= v@.skip(i + 1));
        i = i + 1;
    }
    let ghost body = v@.skip(i as int);
    let mut s = String::new();
    let mut k: usize = i;
    assert(dotted(body).take(0) =~= Seq::empty());
    while k < c.len()
        invariant
            c@ == v@,
            i <= k <= c.len(),
            body == v@.skip(i as int),
            s@ == dotted(body).take(k - i),
        decreases c.len() - k,
    {
        let x = c[k];
        assert(body[k - i] == x);
        let ghost before = s@;
        if x == '.' || x == '-' || x == '+' {
            s.push('.');
        } else {
            s.push(x);
        }
        assert(s@ =~= dotted(body).take(k + 1 - i));
        k = k + 1;
    }
    assert(dotted(body).take(k - i) =~= dotted(body));
    let p = split(s.as_str(), '.');
    (number_at(&p, 0), number_at(&p, 1), number_at(&p, 2))
}

/// Whether the version `latest` is newer than `current`.
pub fn is_newer(current: &str, latest: &str) -> (r: bool)
    ensures
        r == comes_after(version_parts(latest@), version_parts(current@)),
{
    let (a, b, c) = parts(latest);
    let (x, y, z) = parts(current);
    a > x || (a == x && (b > y || (b == y && c > z)))
}

/// Newer is a strict order: no version is newer than itself, no two are newer
/// than each other, and newer than a newer one is newer.
pub proof fn newer_is_a_strict_order(a: Seq<char>, b: Seq<char>, c: Seq<char>)
    ensures
        !comes_after(version_parts(a), version_parts(a)),
        !(comes_after(version_parts(a), version_parts(b)) && comes_after(
            version_parts(b),
            version_parts(a),
        )),
        comes_after(version_parts(a), version_parts(b)) && comes_after(
            version_parts(b),
            version_parts(c),
        ) ==> comes_after(version_parts(a), version_parts(c)),
{
}

/// A reference starts at the first `@[` and ends at the first bracket behind it; the
/// text before it holds none.
pub proof fn references_are_found(a: Seq<char>, p: Seq<char>, b: Seq<char>)
    requires
        !p.contains(']'),
        forall|i: int| 0 <= i < a.len() - 1 ==> !(#[trigger] a[i] == '@' && a[i + 1] == '['),
    ensures
        ({
            let s = a + seq!['@', '['] + p + seq![']'] + b;
            &&& first_ref(s) == Some((a, p, b))
            &&& refs_of(s) == seq![p] + refs_of(b)
        }),
{
    let s = a + seq!['@', '['] + p + seq![']'] + b;
    starts_here(a, p + seq![']'] + b);
    assert(s =~= a + seq!['@', '['] + (p + seq![']'] + b));
    let after = s.skip(a.len() as int + 2);
    assert(after =~= p + seq![']'] + b);
    assert forall|j: int| 0 <= j < p.len() implies #[trigger] after[j] != ']' by {
        assert(after[j] == p[j]);
        assert(p.contains(p[j]));
    }
    assert(after[p.len() as int] == ']');
    crate::text::first_index_is(after, ']', p.len() as int);
    assert(s.take(a.len() as int) =~= a);
    assert(after.take(p.len() as int) =~= p);
    assert(after.skip(p.len() as int + 1) =~= b);
}

proof fn starts_here(a: Seq<char>, rest: Seq<char>)
    requires
        forall|i: int| 0 <= i < a.len() - 1 ==> !(#[trigger] a[i] == '@' && a[i + 1] == '['),
    ensures
        ref_start(a + seq!['@', '['] + rest) == Some(a.len() as int),
    decreases a.len(),
{
    let s = a + seq!['@', '['] + rest;
    if a.len() > 0 {
        let t = a.drop_first();
        assert forall|i: int| 0 <= i < t.len() - 1 implies !(#[trigger] t[i] == '@' && t[i + 1]
            == '[') by {
            assert(t[i] == a[i + 1]);
            assert(t[i + 1] == a[i + 2]);
        }
        starts_here(t, rest);
        assert(s.drop_first() =~= t + seq!['@', '['] + rest);
        assert(s[0] == a[0]);
        if a.len() > 1 {
            assert(s[1] == a[1]);
        } else {
            assert(s[1] == '@');
        }
    } else {
        assert(s[0] == '@' && s[1] == '[');
    }
}

/// A reference is replaced by its file, under its path and whole, where it could be
/// read, and else stays with the reason; what is before it and behind it stays, and
/// what is behind it is read on in the same way.
pub proof fn references_become_their_files(
    a: Seq<char>,
    p: Seq<char>,
    b: Seq<char>,
    content: Seq<char>,
    error: Seq<char>,
    more: Seq<Result<Seq<char>, Seq<char>>>,
)
    requires
        !p.contains(']'),
        forall|i: int| 0 <= i < a.len() - 1 ==> !(#[trigger] a[i] == '@' && a[i + 1] == '['),
    ensures
        ({
            let s = a + seq!['@', '['] + p + seq![']'] + b;
            &&& expanded(s, seq![Ok(content)] + more) == a + ("\n<file path=\""@ + p + "\">\n"@
                + content + "\n</file>\n"@) + expanded(b, more)
            &&& expanded(s, seq![Err(error)] + more) == a + ("@["@ + p + "] (could not read: "@
                + error + ")"@) + expanded(b, more)
        }),
{
    references_are_found(a, p, b);
    let x = seq![Ok::<Seq<char>, Seq<char>>(content)] + more;
    let y = seq![Err::<Seq<char>, Seq<char>>(error)] + more;
    assert(x.skip(1) =~= more);
    assert(y.skip(1) =~= more);
}

/// A version's numbers are those between its marks, and a leading `v` is none of it.
pub proof fn versions_are_three_numbers(a: u64, b: u64, c: u64, mark: char)
    requires
        mark == '.' || mark == '-' || mark == '+',
    ensures
        ({
            let s = decimal_of(a as nat) + seq!['.'] + decimal_of(b as nat) + seq![mark]
                + decimal_of(c as nat);
            &&& version_parts(s) == (a as nat, b as nat, c as nat)
            &&& version_parts(seq!['v'] + s) == (a as nat, b as nat, c as nat)
        }),
{
    let x = decimal_of(a as nat);
    let y = decimal_of(b as nat);
    let z = decimal_of(c as nat);
    let s = x + seq!['.'] + y + seq![mark] + z;
    crate::text::decimal_reads_back(a as nat);
    crate::text::decimal_reads_back(b as nat);
    crate::text::decimal_reads_back(c as nat);
    no_v(x, seq!['.'] + y + seq![mark] + z);
    assert(s =~= x + (seq!['.'] + y + seq![mark] + z));
    marks_are_dots(x, y, z, mark);
    three_pieces(x, y, z);
    crate::text::numerals_read_back(a as nat, u64::MAX as nat, 0);
    crate::text::numerals_read_back(b as nat, u64::MAX as nat, 0);
    crate::text::numerals_read_back(c as nat, u64::MAX as nat, 0);
}

proof fn no_v(x: Seq<char>, rest: Seq<char>)
    requires
        x.len() > 0,
        crate::text::all_digits(x),
    ensures
        without_v(x + rest) == x + rest,
        without_v(seq!['v'] + (x + rest)) == x + rest,
{
    let s = x + rest;
    assert(crate::text::is_digit(x[0]));
    assert(s[0] == x[0]);
    assert((seq!['v'] + s).drop_first() =~= s);
}

proof fn marks_are_dots(x: Seq<char>, y: Seq<char>, z: Seq<char>, mark: char)
    requires
        crate::text::all_digits(x),
        crate::text::all_digits(y),
        crate::text::all_digits(z),
        is_version_mark(mark),
    ensures
        dotted(x + seq!['.'] + y + seq![mark] + z) == x + seq!['.'] + y + seq!['.'] + z,
{
    let s = x + seq!['.'] + y + seq![mark] + z;
    let d = x + seq!['.'] + y + seq!['.'] + z;
    assert forall|i: int| 0 <= i < s.len() implies dotted(s)[i] == d[i] by {
        if i < x.len() {
            assert(crate::text::is_digit(x[i]));
        } else if x.len() < i < x.len() + 1 + y.len() {
            assert(crate::text::is_digit(y[i - x.len() - 1]));
        } else if i > x.len() + 1 + y.len() {
            assert(crate::text::is_digit(z[i - x.len() - y.len() - 2]));
        }
    }
    assert(dotted(s) =~= d);
}

proof fn three_pieces(x: Seq<char>, y: Seq<char>, z: Seq<char>)
    requires
        crate::text::all_digits(x),
        crate::text::all_digits(y),
        crate::text::all_digits(z),
    ensures
        pieces(x + seq!['.'] + y + seq!['.'] + z, '.') == seq![x, y, z],
{
    let t = y.push('.') + z;
    assert(x + seq!['.'] + y + seq!['.'] + z =~= x.push('.') + t);
    crate::text::pieces_concat(x, '.', t);
    crate::text::pieces_concat(y, '.', z);
    one_piece(x);
    one_piece(y);
    one_piece(z);
    assert(seq![x] + (seq![y] + seq![z]) =~= seq![x, y, z]);
}

proof fn one_piece(s: Seq<char>)
    requires
        crate::text::all_digits(s),
    ensures
        pieces(s, '.') == seq![s],
    decreases s.len(),
{
    if s.len() > 0 {
        let t = s.drop_last();
        assert(crate::text::all_digits(t)) by {
            assert forall|i: int| 0 <= i < t.len() implies crate::text::is_digit(
                #[trigger] t[i],
            ) by {
                assert(t[i] == s[i]);
            }
        }
        one_piece(t);
        assert(crate::text::is_digit(s[s.len() - 1]));
        assert(t.push(s.last()) =~= s);
        assert(pieces(s, '.') =~= seq![s]);
    } else {
        assert(s =~= Seq::empty());
    }
}

/// Of two versions the one with the greater first number that differs is newer.
pub proof fn the_first_difference_decides(x: nat, y: nat, z: nat, p: nat, q: nat, r: nat)
    ensures
        x > p ==> comes_after((x, y, z), (p, q, r)),
        x == p && y > q ==> comes_after((x, y, z), (p, q, r)),
        x == p && y == q ==> (comes_after((x, y, z), (p, q, r)) <==> z > r),
        x < p ==> !comes_after((x, y, z), (p, q, r)),
        x == p && y < q ==> !comes_after((x, y, z), (p, q, r)),
{
}

/// What setting up came to names the file, and the reason where it could not be
/// written; only that fails.
pub proof fn setups_are_told(wrote: Wrote, file: Seq<char>, dir: Seq<char>)
    ensures
        (setup_text(wrote, file, dir).1 == 0) == !(wrote is Failed),
        wrote is Failed ==> setup_text(wrote, file, dir).1 == 1,
        crate::text::occurs(setup_text(wrote, file, dir).0, file),
        wrote matches Wrote::Failed(e) ==> e@.is_suffix_of(setup_text(wrote, file, dir).0),
        wrote is Created ==> ("wrote "@ + file).is_prefix_of(setup_text(wrote, file, dir).0),
        wrote is Exists ==> ("kept existing "@ + file).is_prefix_of(
            setup_text(wrote, file, dir).0,
        ),
{
    let s = setup_text(wrote, file, dir).0;
    let k: int = match wrote {
        Wrote::Created => "wrote "@.len() as int,
        Wrote::Exists => "kept existing "@.len() as int,
        Wrote::Failed(_) => "hotl: could not write "@.len() as int,
    };
    assert(s.subrange(k, k + file.len()) =~= file);
    assert(crate::text::occurs_at(s, file, k));
    match wrote {
        Wrote::Created => {
            assert(s.take(k + file.len()) =~= "wrote "@ + file);
        },
        Wrote::Exists => {
            assert(s.take(k + file.len()) =~= "kept existing "@ + file);
        },
        Wrote::Failed(e) => {
            assert(s.skip(s.len() - e@.len()) =~= e@);
        },
    }
}

/// A first run is told where the configuration would be.
pub proof fn first_runs_are_told_where(dir: Seq<char>)
    ensures
        crate::text::occurs(first_run_text(dir), dir),
{
    let s = first_run_text(dir);
    let k = "first run — no config at "@.len() as int;
    assert(s.subrange(k, k + dir.len()) =~= dir);
    assert(crate::text::occurs_at(s, dir, k));
}

} // verus!
