//! `hotl mcp`: the roster of configured tool servers and their trust grants.
//!
//! Nothing here grants trust, and nothing here writes the configuration: a
//! block to paste is all that adding a server gives.
use crate::plugins::{servers_view, ServerConfig, ServerV};
use crate::text::{
    alnum, ascii_lower, decimal, decimal_of, group4, group6, group7, in_order, is_alnum, join, joined,
    lines, lines_of, lowered, occurs, occurs_between, occurs_on, same, sort_texts, texts, to_chars,
    trim, trimmed,
};
use crate::toml_text::{
    all_quotable, block, fields_view, is_quotable, quotable, run_of, toml_block, Field, FieldV,
    MARK_LIMIT,
};
use vstd::prelude::*;
use vstd::string::*;

verus! {

/// A character that a name may hold after its first.
pub open spec fn is_name_char(c: char) -> bool {
    is_alnum(c) || c == '.' || c == '_' || c == '-'
}

/// A name: letters, digits, `.`, `_` and `-`, a letter or digit first, at most
/// 64 characters.
pub open spec fn is_valid_name(s: Seq<char>) -> bool {
    &&& 1 <= s.len() <= 64
    &&& is_alnum(s[0])
    &&& forall|i: int| 0 <= i < s.len() ==> is_name_char(#[trigger] s[i])
}

/// Decides [`is_valid_name`].
pub fn valid_name(name: &str) -> (r: bool)
    ensures
        r == is_valid_name(name@),
{
    let v = to_chars(name);
    if v.len() == 0 || v.len() > 64 || !alnum(v[0]) {
        return false;
    }
    let mut i: usize = 0;
    while i < v.len()
        invariant
            v@ == name@,
            0 <= i <= v.len(),
            forall|k: int| 0 <= k < i ==> is_name_char(#[trigger] name@[k]),
        decreases v.len() - i,
    {
        let c = v[i];
        if !(alnum(c) || c == '.' || c == '_' || c == '-') {
            return false;
        }
        i = i + 1;
    }
    true
}

/// What `hotl mcp` is asked to do.
#[derive(Debug, PartialEq, Eq)]
pub enum Verb {
    List,
    Show(String),
    Add { name: String, command: String, args: Vec<String> },
    Untrust(String),
    Test(String),
}

/// The view of a [`Verb`].
#[verifier::ext_equal]
pub enum VerbV {
    List,
    Show(Seq<char>),
    Add(Seq<char>, Seq<char>, Seq<Seq<char>>),
    Untrust(Seq<char>),
    Test(Seq<char>),
}

impl View for Verb {
    type V = VerbV;

    open spec fn view(&self) -> VerbV {
        match *self {
            Verb::List => VerbV::List,
            Verb::Show(n) => VerbV::Show(n@),
            Verb::Add { name, command, args } => VerbV::Add(name@, command@, texts(args@)),
            Verb::Untrust(n) => VerbV::Untrust(n@),
            Verb::Test(n) => VerbV::Test(n@),
        }
    }
}

/// What the arguments ask for; the command's own name comes first.
pub open spec fn verb_of(args: Seq<Seq<char>>) -> Option<VerbV> {
    if args.len() < 2 || args[1] == "list"@ {
        Some(VerbV::List)
    } else if args[1] == "show"@ {
        if args.len() > 2 {
            Some(VerbV::Show(args[2]))
        } else {
            None
        }
    } else if args[1] == "add"@ {
        if args.len() > 3 {
            Some(VerbV::Add(args[2], args[3], args.skip(4)))
        } else {
            None
        }
    } else if args[1] == "untrust"@ {
        if args.len() > 2 {
            Some(VerbV::Untrust(args[2]))
        } else {
            None
        }
    } else if args[1] == "test"@ {
        if args.len() > 2 {
            Some(VerbV::Test(args[2]))
        } else {
            None
        }
    } else {
        None
    }
}

/// How the command is used.
pub const USAGE: &'static str = "usage: hotl mcp [list] | show <name> | add <name> <command> [args...] | untrust <name>|--all | test <name>";

/// What the arguments ask for, or the exit code of a wrong command line.
pub fn verb(args: &[String]) -> (r: Result<Verb, i32>)
    ensures
        match r {
            Ok(v) => verb_of(texts(args@)) == Some(v@),
            Err(code) => verb_of(texts(args@)) is None && code == 2,
        },
{
    let ghost all = texts(args@);
    let n: usize = args.len();
    if n < 2 {
        return Ok(Verb::List);
    }
    assert(all[1] == args@[1]@);
    assert(n > 2 ==> all[2] == args@[2]@);
    assert(n > 3 ==> all[3] == args@[3]@);
    let word = args[1].as_str();
    if same(word, "list") {
        return Ok(Verb::List);
    }
    if same(word, "show") {
        if n > 2 {
            return Ok(Verb::Show(args[2].clone()));
        }
        return Err(2);
    }
    if same(word, "add") {
        if n > 3 {
            let mut rest: Vec<String> = Vec::new();
            let mut i: usize = 4;
            assert(texts(rest@) =~= Seq::empty());
            assert(all.subrange(4, 4) =~= Seq::empty());
            while i < n
                invariant
                    4 <= i <= n,
                    n == args.len(),
                    all == texts(args@),
                    texts(rest@) == all.subrange(4, i as int),
                decreases n - i,
            {
                let ghost before = texts(rest@);
                rest.push(args[i].clone());
                assert(all[i as int] == args@[i as int]@);
                assert(texts(rest@) =~= before.push(all[i as int]));
                i = i + 1;
                assert(all.subrange(4, i as int) =~= all.subrange(4, i - 1).push(all[i - 1]));
            }
            assert(all.subrange(4, i as int) =~= all.skip(4));
            return Ok(
                Verb::Add { name: args[2].clone(), command: args[3].clone(), args: rest },
            );
        }
        return Err(2);
    }
    if same(word, "untrust") {
        if n > 2 {
            return Ok(Verb::Untrust(args[2].clone()));
        }
        return Err(2);
    }
    if same(word, "test") {
        if n > 2 {
            return Ok(Verb::Test(args[2].clone()));
        }
        return Err(2);
    }
    Err(2)
}

/// A server's command and arguments as one text.
pub open spec fn program_text(s: ServerV) -> Seq<char> {
    if s.args.len() == 0 {
        s.command
    } else {
        s.command + " "@ + joined(s.args, " "@)
    }
}

fn program(cfg: &ServerConfig) -> (r: String)
    ensures
        r@ == program_text(cfg@),
{
    assert(cfg@.args.len() == cfg.args@.len());
    let mut s = cfg.command.clone();
    if cfg.args.len() > 0 {
        s.append(" ");
        s.append(join(cfg.args.as_slice(), " ").as_str());
    }
    s
}

/// The longest of the first `n` texts' lengths.
pub open spec fn width(v: Seq<Seq<char>>, n: nat) -> nat
    decreases n,
{
    if n == 0 {
        0
    } else if v[n - 1].len() > width(v, (n - 1) as nat) {
        v[n - 1].len()
    } else {
        width(v, (n - 1) as nat)
    }
}

/// A text with spaces after it, up to a width.
pub open spec fn padded(s: Seq<char>, w: nat) -> Seq<char> {
    s + Seq::new(
        if w > s.len() {
            (w - s.len()) as nat
        } else {
            0
        },
        |i: int| ' ',
    )
}

fn widest(v: &[String]) -> (r: usize)
    ensures
        r == width(texts(v@), v@.len()),
{
    let ghost all = texts(v@);
    let mut w: usize = 0;
    let mut i: usize = 0;
    while i < v.len()
        invariant
            0 <= i <= v.len(),
            all == texts(v@),
            w == width(all, i as nat),
        decreases v.len() - i,
    {
        assert(all[i as int] == v@[i as int]@);
        let n: usize = v[i].as_str().unicode_len();
        if n > w {
            w = n;
        }
        i = i + 1;
    }
    w
}

fn pad(out: &mut String, s: &str, w: usize)
    ensures
        final(out)@ == old(out)@ + padded(s@, w as nat),
{
    let ghost start = out@;
    out.append(s);
    let mut n: usize = s.unicode_len();
    while n < w
        invariant
            n >= s@.len(),
            n <= w || n == s@.len(),
            out@ == start + s@ + Seq::new((n - s@.len()) as nat, |i: int| ' '),
        decreases w - n,
    {
        let ghost before = out@;
        out.push(' ');
        n = n + 1;
        assert(out@ =~= start + s@ + Seq::new((n - s@.len()) as nat, |i: int| ' '));
    }
    assert(out@ =~= start + padded(s@, w as nat));
}

/// The names of the servers.
pub open spec fn server_names(v: Seq<ServerV>) -> Seq<Seq<char>> {
    Seq::new(v.len(), |i: int| v[i].name)
}

/// The servers' programs.
pub open spec fn programs(v: Seq<ServerV>) -> Seq<Seq<char>> {
    Seq::new(v.len(), |i: int| program_text(v[i]))
}

/// The rows of the first `n` servers: name, program and trust, in columns.
pub open spec fn rows(servers: Seq<ServerV>, labels: Seq<Seq<char>>, n: nat) -> Seq<char>
    decreases n,
{
    if n == 0 {
        Seq::empty()
    } else {
        rows(servers, labels, (n - 1) as nat) + padded(
            servers[n - 1].name,
            width(server_names(servers), servers.len()),
        ) + "  "@ + padded(program_text(servers[n - 1]), width(programs(servers), servers.len()))
            + "  "@ + labels[n - 1] + "\n"@
    }
}

/// The grants, among the first `n`, of servers that are no longer there.
pub open spec fn orphans(grants: Seq<Seq<char>>, servers: Seq<ServerV>, n: nat) -> Seq<Seq<char>>
    decreases n,
{
    if n == 0 {
        Seq::empty()
    } else if server_names(servers).contains(grants[n - 1]) {
        orphans(grants, servers, (n - 1) as nat)
    } else {
        orphans(grants, servers, (n - 1) as nat).push(grants[n - 1])
    }
}

/// The grants of servers that are no longer configured, in order.
pub open spec fn stale(grants: Seq<Seq<char>>, servers: Seq<ServerV>) -> Seq<Seq<char>> {
    in_order(orphans(grants, servers, grants.len()))
}

/// Whether one of the servers has the name.
pub open spec fn is_configured(servers: Seq<ServerV>, name: Seq<char>) -> bool {
    server_names(servers).contains(name)
}

fn position(servers: &[ServerConfig], name: &str) -> (r: Option<usize>)
    ensures
        match r {
            Some(i) => i < servers@.len() && servers@[i as int].name@ == name@ && is_configured(
                servers_view(servers@),
                name@,
            ) && forall|k: int| 0 <= k < i ==> (#[trigger] servers@[k]).name@ != name@,
            None => !is_configured(servers_view(servers@), name@),
        },
{
    let ghost names = server_names(servers_view(servers@));
    let mut i: usize = 0;
    while i < servers.len()
        invariant
            0 <= i <= servers.len(),
            names == server_names(servers_view(servers@)),
            forall|k: int| 0 <= k < i ==> (#[trigger] servers@[k]).name@ != name@,
        decreases servers.len() - i,
    {
        assert(names[i as int] == servers@[i as int].name@);
        if same(servers[i].name.as_str(), name) {
            return Some(i);
        }
        i = i + 1;
    }
    assert forall|k: int| 0 <= k < names.len() implies names[k] != name@ by {
        assert(names[k] == servers@[k].name@);
    }
    None
}

/// The grants of servers that are no longer configured, in order.
pub fn stale_grants(grants: &[String], servers: &[ServerConfig]) -> (r: Vec<String>)
    ensures
        texts(r@) == stale(texts(grants@), servers_view(servers@)),
{
    let ghost all = texts(grants@);
    let mut out: Vec<String> = Vec::new();
    let mut i: usize = 0;
    assert(texts(out@) =~= Seq::empty());
    while i < grants.len()
        invariant
            0 <= i <= grants.len(),
            all == texts(grants@),
            texts(out@) == orphans(all, servers_view(servers@), i as nat),
        decreases grants.len() - i,
    {
        assert(all[i as int] == grants@[i as int]@);
        if position(servers, grants[i].as_str()).is_none() {
            let ghost before = texts(out@);
            out.push(grants[i].clone());
            assert(texts(out@) =~= before.push(all[i as int]));
        }
        i = i + 1;
    }
    sort_texts(out)
}

/// The first `n` warnings, each on a line.
pub open spec fn warning_lines(v: Seq<Seq<char>>, n: nat) -> Seq<char>
    decreases n,
{
    if n == 0 {
        Seq::empty()
    } else {
        warning_lines(v, (n - 1) as nat) + "warning: "@ + v[n - 1] + "\n"@
    }
}

/// What is said of a grant without a server.
pub open spec fn stale_note(name: Seq<char>) -> Seq<char> {
    "trust.toml holds a grant for `"@ + name
        + "`, which is no longer configured — run: hotl mcp untrust "@ + name
}

/// The lines on the first `n` grants without a server.
pub open spec fn stale_lines(v: Seq<Seq<char>>, n: nat) -> Seq<char>
    decreases n,
{
    if n == 0 {
        Seq::empty()
    } else {
        stale_lines(v, (n - 1) as nat) + "warning: "@ + stale_note(v[n - 1]) + "\n"@
    }
}

/// The roster as it is printed: the servers with their trust, what the trust
/// file is warned of, and the grants without a server.
pub open spec fn roster_text(
    servers: Seq<ServerV>,
    labels: Seq<Seq<char>>,
    warnings: Seq<Seq<char>>,
    grants: Seq<Seq<char>>,
) -> Seq<char> {
    let head = if servers.len() == 0 {
        "no MCP servers configured — run: hotl mcp add <name> <command>\n"@
    } else {
        rows(servers, labels, servers.len())
    };
    let left = stale(grants, servers);
    head + warning_lines(warnings, warnings.len()) + stale_lines(left, left.len())
}

/// What is said of a grant without a server.
pub fn stale_text(name: &str) -> (r: String)
    ensures
        r@ == stale_note(name@),
{
    let mut s = "trust.toml holds a grant for `".to_owned();
    s.append(name);
    s.append("`, which is no longer configured — run: hotl mcp untrust ");
    s.append(name);
    s
}

fn all_programs(servers: &[ServerConfig]) -> (r: (Vec<String>, Vec<String>))
    ensures
        texts(r.0@) == server_names(servers_view(servers@)),
        texts(r.1@) == programs(servers_view(servers@)),
{
    let mut names: Vec<String> = Vec::new();
    let mut progs: Vec<String> = Vec::new();
    let mut i: usize = 0;
    while i < servers.len()
        invariant
            0 <= i <= servers.len(),
            names@.len() == i,
            progs@.len() == i,
            forall|k: int| 0 <= k < i ==> (#[trigger] names@[k])@ == servers@[k].name@,
            forall|k: int| 0 <= k < i ==> (#[trigger] progs@[k])@ == program_text(servers@[k]@),
        decreases servers.len() - i,
    {
        names.push(servers[i].name.clone());
        progs.push(program(&servers[i]));
        i = i + 1;
    }
    assert(texts(names@) =~= server_names(servers_view(servers@)));
    assert(texts(progs@) =~= programs(servers_view(servers@)));
    (names, progs)
}

/// The roster as it is printed. `labels` holds what the trust gate does with
/// each server, and `grants` the names that grants are recorded for.
pub fn render_list(
    servers: &[ServerConfig],
    labels: &[String],
    warnings: &[String],
    grants: &[String],
) -> (r: String)
    requires
        labels@.len() == servers@.len(),
    ensures
        r@ == roster_text(
            servers_view(servers@),
            texts(labels@),
            texts(warnings@),
            texts(grants@),
        ),
{
    let ghost sv = servers_view(servers@);
    let ghost lv = texts(labels@);
    let mut out = String::new();
    if servers.len() == 0 {
        out = "no MCP servers configured — run: hotl mcp add <name> <command>\n".to_owned();
    } else {
        let (names, progs) = all_programs(servers);
        assert(server_names(sv).len() == names@.len()) by {
            assert(texts(names@).len() == names@.len());
        }
        assert(programs(sv).len() == progs@.len()) by {
            assert(texts(progs@).len() == progs@.len());
        }
        let name_w: usize = widest(names.as_slice());
        let prog_w: usize = widest(progs.as_slice());
        let mut i: usize = 0;
        while i < servers.len()
            invariant
                0 <= i <= servers.len(),
                labels@.len() == servers@.len(),
                names@.len() == servers@.len(),
                progs@.len() == servers@.len(),
                sv == servers_view(servers@),
                lv == texts(labels@),
                texts(names@) == server_names(sv),
                texts(progs@) == programs(sv),
                name_w == width(server_names(sv), sv.len()),
                prog_w == width(programs(sv), sv.len()),
                out@ == rows(sv, lv, i as nat),
            decreases servers.len() - i,
        {
            assert(texts(names@)[i as int] == names@[i as int]@);
            assert(texts(progs@)[i as int] == progs@[i as int]@);
            assert(lv[i as int] == labels@[i as int]@);
            pad(&mut out, names[i].as_str(), name_w);
            out.append("  ");
            pad(&mut out, progs[i].as_str(), prog_w);
            out.append("  ");
            out.append(labels[i].as_str());
            out.append("\n");
            i = i + 1;
        }
    }
    let ghost head = out@;
    let ghost wv = texts(warnings@);
    let mut j: usize = 0;
    assert(head + warning_lines(wv, 0) =~= head);
    while j < warnings.len()
        invariant
            0 <= j <= warnings.len(),
            wv == texts(warnings@),
            out@ == head + warning_lines(wv, j as nat),
        decreases warnings.len() - j,
    {
        assert(wv[j as int] == warnings@[j as int]@);
        out.append("warning: ");
        out.append(warnings[j].as_str());
        out.append("\n");
        j = j + 1;
        assert(out@ =~= head + warning_lines(wv, j as nat));
    }
    let ghost mid = out@;
    let left = stale_grants(grants, servers);
    let ghost gv = texts(left@);
    let mut k: usize = 0;
    assert(mid + stale_lines(gv, 0) =~= mid);
    while k < left.len()
        invariant
            0 <= k <= left.len(),
            gv == texts(left@),
            out@ == mid + stale_lines(gv, k as nat),
        decreases left.len() - k,
    {
        assert(gv[k as int] == left@[k as int]@);
        out.append("warning: ");
        out.append(stale_text(left[k].as_str()).as_str());
        out.append("\n");
        k = k + 1;
        assert(out@ =~= mid + stale_lines(gv, k as nat));
    }
    assert(gv.len() == left@.len());
    out
}

/// Why no server of that name is found.
pub open spec fn not_found(servers: Seq<ServerV>, name: Seq<char>) -> Seq<char> {
    if servers.len() == 0 {
        "no server named `"@ + name + "` is configured; none are — see: hotl mcp add"@
    } else {
        "no server named `"@ + name + "` is configured. Configured: "@ + joined(
            server_names(servers),
            ", "@,
        ) + " — see: hotl mcp list"@
    }
}

/// The first server of a name, or what is said where there is none.
pub fn find(servers: &[ServerConfig], name: &str) -> (r: Result<usize, String>)
    ensures
        match r {
            Ok(i) => i < servers@.len() && servers@[i as int].name@ == name@ && forall|k: int|
                0 <= k < i ==> (#[trigger] servers@[k]).name@ != name@,
            Err(e) => !is_configured(servers_view(servers@), name@) && e@ == not_found(
                servers_view(servers@),
                name@,
            ),
        },
{
    match position(servers, name) {
        Some(i) => Ok(i),
        None => {
            let mut s = "no server named `".to_owned();
            s.append(name);
            if servers.len() == 0 {
                s.append("` is configured; none are — see: hotl mcp add");
                return Err(s);
            }
            let (names, _progs) = all_programs(servers);
            s.append("` is configured. Configured: ");
            s.append(join(names.as_slice(), ", ").as_str());
            s.append(" — see: hotl mcp list");
            Err(s)
        },
    }
}

/// What is shown of one server: the screen's text, the key of its fingerprint
/// and what a launch will do.
pub fn show(fingerprint: &str, key: &str, label: &str) -> (r: String)
    ensures
        r@ == fingerprint@ + "\n  key: "@ + key@ + "\n  trust: "@ + label@,
{
    let mut s = fingerprint.to_owned();
    s.append("\n  key: ");
    s.append(key);
    s.append("\n  trust: ");
    s.append(label);
    s
}

/// The first `n` lines, each indented.
pub open spec fn indented(v: Seq<Seq<char>>, n: nat) -> Seq<char>
    decreases n,
{
    if n == 0 {
        Seq::empty()
    } else {
        indented(v, (n - 1) as nat) + "    "@ + v[n - 1] + "\n"@
    }
}

/// The fields of a server's block.
pub open spec fn block_fields(name: Seq<char>, command: Seq<char>, args: Seq<Seq<char>>) -> Seq<
    (Seq<char>, FieldV),
> {
    seq![
        ("name"@, FieldV::Text(name)),
        ("command"@, FieldV::Text(command)),
        ("args"@, FieldV::List(args)),
        ("description"@, FieldV::Text(""@)),
    ]
}

/// The text around a server's block.
pub open spec fn paste_text(doc: Seq<char>) -> Seq<char> {
    let v = lines_of(doc);
    "add this to ~/.config/hotl/config.toml\n\n"@ + indented(v, v.len())
        + "\nFill in `description` — the model reads it to decide when to use the server.\n\nhotl does not write this for you. config.toml is in the protected floor, and a CLI that edited it would be a path the model's own bash could take. Paste it yourself; hotl will show you the server's fingerprint the first time a turn uses it."@
}

/// The text around a server's block, whatever the block's text is.
pub fn paste(doc: &str) -> (r: String)
    ensures
        r@ == paste_text(doc@),
{
    let all = lines(doc);
    let ghost v = lines_of(doc@);
    assert(texts(all@).len() == all@.len());
    let mut s = "add this to ~/.config/hotl/config.toml\n\n".to_owned();
    let ghost head = s@;
    let mut i: usize = 0;
    assert(head + indented(v, 0) =~= head);
    while i < all.len()
        invariant
            0 <= i <= all.len(),
            v == texts(all@),
            s@ == head + indented(v, i as nat),
        decreases all.len() - i,
    {
        assert(v[i as int] == all@[i as int]@);
        s.append("    ");
        s.append(all[i].as_str());
        s.append("\n");
        i = i + 1;
        assert(s@ =~= head + indented(v, i as nat));
    }
    s.append(
        "\nFill in `description` — the model reads it to decide when to use the server.\n\nhotl does not write this for you. config.toml is in the protected floor, and a CLI that edited it would be a path the model's own bash could take. Paste it yourself; hotl will show you the server's fingerprint the first time a turn uses it.",
    );
    s
}

/// A valid name holds no mark.
proof fn names_are_quotable(name: Seq<char>)
    requires
        is_valid_name(name),
    ensures
        quotable(name),
{
    assert forall|n: nat| n <= name.len() implies #[trigger] run_of(name, '\'', n) <= MARK_LIMIT
        && run_of(name, '"', n) <= MARK_LIMIT by {
        if n > 0 {
            assert(is_name_char(name[n - 1]));
        }
    }
}

/// Why a server's command line is turned away: the TOML writer cannot put a word
/// of it in quotes.
pub open spec fn unquotable_server(name: Seq<char>) -> Seq<char> {
    "the command line of `"@ + name + "` holds too many quotation marks in a row"@
}

/// What is printed for a server to be added: the block to paste, for a valid
/// name and a command line that can be put in quotes.
pub fn add(name: &str, command: &str, args: &[String]) -> (r: Result<String, String>)
    ensures
        match r {
            Ok(s) => is_valid_name(name@) && quotable(command@) && all_quotable(texts(args@)) && s@
                == paste_text(toml_block("mcp"@, block_fields(name@, command@, texts(args@)))),
            Err(e) => if !is_valid_name(name@) {
                e@ == "`"@ + name@
                    + "` is not a valid server name (letters, digits, `.`/`_`/`-`, alphanumeric first char, <= 64 chars)"@
            } else {
                !(quotable(command@) && all_quotable(texts(args@))) && e@ == unquotable_server(
                    name@,
                )
            },
        },
{
    if !valid_name(name) {
        let mut e = "`".to_owned();
        e.append(name);
        e.append(
            "` is not a valid server name (letters, digits, `.`/`_`/`-`, alphanumeric first char, <= 64 chars)",
        );
        return Err(e);
    }
    let mut crowded = !is_quotable(command);
    let mut list: Vec<String> = Vec::new();
    let mut i: usize = 0;
    while i < args.len()
        invariant
            0 <= i <= args.len(),
            list@.len() == i,
            forall|k: int| 0 <= k < i ==> (#[trigger] list@[k])@ == args@[k]@,
            crowded == !(quotable(command@) && forall|k: int|
                0 <= k < i ==> quotable(#[trigger] texts(args@)[k])),
        decreases args.len() - i,
    {
        assert(texts(args@)[i as int] == args@[i as int]@);
        if !is_quotable(args[i].as_str()) {
            crowded = true;
        }
        list.push(args[i].clone());
        i = i + 1;
    }
    if crowded {
        let mut e = "the command line of `".to_owned();
        e.append(name);
        e.append("` holds too many quotation marks in a row");
        return Err(e);
    }
    assert(texts(list@) =~= texts(args@));
    let fields = [
        ("name", Field::Text(name.to_owned())),
        ("command", Field::Text(command.to_owned())),
        ("args", Field::List(list)),
        ("description", Field::Text("".to_owned())),
    ];
    assert(fields_view(fields@) =~= block_fields(name@, command@, texts(args@)));
    proof {
        reveal_strlit("");
        assert(quotable(""@)) by {
            assert forall|n: nat| n <= ""@.len() implies #[trigger] run_of(""@, '\'', n)
                <= MARK_LIMIT && run_of(""@, '"', n) <= MARK_LIMIT by {}
        }
        names_are_quotable(name@);
        let v = fields_view(fields@);
        assert(v[2].1 == FieldV::List(texts(args@)));
    }
    let doc = block("mcp", &fields);
    Ok(paste(doc.as_str()))
}

/// Whether a grant is recorded for the name.
pub open spec fn is_granted(grants: Seq<Seq<char>>, name: Seq<char>) -> bool {
    grants.contains(name)
}

/// What is to be revoked, and what is said of it: one grant, or with `--all`
/// every one.
pub fn untrust(name: &str, grants: &[String]) -> (r: Result<(Vec<String>, String), String>)
    ensures
        name@ == "--all"@ ==> (r matches Ok((drop, said)) && texts(drop@) == texts(grants@) && said@
            == (if grants@.len() == 0 {
            "no grants recorded — nothing to revoke"@
        } else {
            "revoked "@ + decimal_of(grants@.len())
                + " grant(s); each server will be screened again"@
        })),
        name@ != "--all"@ && is_granted(texts(grants@), name@) ==> (r matches Ok((drop, said))
            && texts(drop@) == seq![name@] && said@ == "revoked `"@ + name@
            + "` — it will be screened again on next use"@),
        name@ != "--all"@ && !is_granted(texts(grants@), name@) ==> (r matches Err(e) && e@
            == "no grant recorded for `"@ + name@ + "` — see: hotl mcp list"@),
{
    let ghost all = texts(grants@);
    let mut out: Vec<String> = Vec::new();
    if same(name, "--all") {
        let mut i: usize = 0;
        while i < grants.len()
            invariant
                0 <= i <= grants.len(),
                out@.len() == i,
                forall|k: int| 0 <= k < i ==> (#[trigger] out@[k])@ == grants@[k]@,
            decreases grants.len() - i,
        {
            out.push(grants[i].clone());
            i = i + 1;
        }
        assert(texts(out@) =~= all);
        if grants.len() == 0 {
            return Ok((out, "no grants recorded — nothing to revoke".to_owned()));
        }
        let mut s = "revoked ".to_owned();
        s.append(decimal(grants.len() as u64).as_str());
        s.append(" grant(s); each server will be screened again");
        return Ok((out, s));
    }
    let mut i: usize = 0;
    while i < grants.len()
        invariant
            0 <= i <= grants.len(),
            out@.len() == 0,
            all == texts(grants@),
            name@ != "--all"@,
            forall|k: int| 0 <= k < i ==> (#[trigger] all[k]) != name@,
        decreases grants.len() - i,
    {
        assert(all[i as int] == grants@[i as int]@);
        if same(grants[i].as_str(), name) {
            out.push(name.to_owned());
            assert(texts(out@) =~= seq![name@]);
            let mut s = "revoked `".to_owned();
            s.append(name);
            s.append("` — it will be screened again on next use");
            return Ok((out, s));
        }
        i = i + 1;
    }
    let mut e = "no grant recorded for `".to_owned();
    e.append(name);
    e.append("` — see: hotl mcp list");
    Err(e)
}

/// What the trust gate does with a server.
#[derive(Debug, Clone, Copy, PartialEq, Eq, Structural)]
pub enum TrustState {
    Trusted,
    Untrusted,
    /// Its binary cannot be read.
    Unhashable,
}

/// What has to happen before a server is started to list its tools.
#[derive(Debug, Clone, Copy, PartialEq, Eq, Structural)]
pub enum Screen {
    /// Nothing: it is trusted.
    Skip,
    /// A person has to agree.
    Ask,
}

/// Whether a person has to agree before a server is started. Without a
/// terminal nobody can, so an untrusted server is not started.
pub fn screen(name: &str, state: TrustState, label: &str, interactive: bool) -> (r: Result<
    Screen,
    String,
>)
    ensures
        state == TrustState::Trusted ==> r == Ok::<Screen, String>(Screen::Skip),
        state != TrustState::Trusted && interactive ==> r == Ok::<Screen, String>(Screen::Ask),
        state != TrustState::Trusted && !interactive ==> (r matches Err(e) && e@ == "`"@ + name@
            + "` is not trusted ("@ + label@
            + "), so starting it needs a terminal to screen it. Run this from a shell."@),
{
    if state == TrustState::Trusted {
        return Ok(Screen::Skip);
    }
    if interactive {
        return Ok(Screen::Ask);
    }
    let mut e = "`".to_owned();
    e.append(name);
    e.append("` is not trusted (");
    e.append(label);
    e.append("), so starting it needs a terminal to screen it. Run this from a shell.");
    Err(e)
}

/// Whether an answer agrees to start the server.
pub fn start_agreed(line: &str) -> (r: bool)
    ensures
        r == (lowered(trimmed(line@)) == "y"@),
{
    same(ascii_lower(trim(line)).as_str(), "y")
}

/// A text's first line, cut at sixty characters.
pub open spec fn clipped(s: Seq<char>) -> Seq<char> {
    let one = if lines_of(s).len() == 0 {
        Seq::empty()
    } else {
        lines_of(s)[0]
    };
    if one.len() <= 60 {
        one
    } else {
        one.take(60) + "…"@
    }
}

/// A text's first line, cut at sixty characters.
pub fn clip(s: &str) -> (r: String)
    ensures
        r@ == clipped(s@),
{
    let all = lines(s);
    assert(texts(all@).len() == all@.len());
    if all.len() == 0 {
        return String::new();
    }
    assert(texts(all@)[0] == all@[0]@);
    let one = all[0].as_str();
    if one.unicode_len() <= 60 {
        return one.to_owned();
    }
    let mut r = one.substring_char(0, 60).to_owned();
    assert(r@ =~= one@.take(60));
    r.append("…");
    r
}

/// The names of the tools.
pub open spec fn tool_names(v: Seq<(String, String)>) -> Seq<Seq<char>> {
    Seq::new(v.len(), |i: int| v[i].0@)
}

/// The lines on the first `n` tools.
pub open spec fn tool_lines(v: Seq<(String, String)>, n: nat) -> Seq<char>
    decreases n,
{
    if n == 0 {
        Seq::empty()
    } else {
        tool_lines(v, (n - 1) as nat) + "  "@ + padded(
            v[n - 1].0@,
            width(tool_names(v), v.len()),
        ) + "  "@ + clipped(v[n - 1].1@) + "\n"@
    }
}

/// What is said of a server that was started and answered.
pub fn test_report(name: &str, tools: &[(String, String)]) -> (r: String)
    ensures
        r@ == (if tools@.len() == 0 {
            "`"@ + name@ + "` started and answered, but lists no tools"@
        } else {
            "`"@ + name@ + "` started and answered. "@ + decimal_of(tools@.len()) + " tool(s):\n"@
                + tool_lines(tools@, tools@.len())
                + "\nNothing was recorded — trust is granted only from the in-session screen."@
        }),
{
    let mut s = "`".to_owned();
    s.append(name);
    if tools.len() == 0 {
        s.append("` started and answered, but lists no tools");
        return s;
    }
    s.append("` started and answered. ");
    s.append(decimal(tools.len() as u64).as_str());
    s.append(" tool(s):\n");
    let ghost head = s@;
    let mut names: Vec<String> = Vec::new();
    let mut i: usize = 0;
    while i < tools.len()
        invariant
            0 <= i <= tools.len(),
            names@.len() == i,
            forall|k: int| 0 <= k < i ==> (#[trigger] names@[k])@ == tools@[k].0@,
        decreases tools.len() - i,
    {
        names.push(tools[i].0.clone());
        i = i + 1;
    }
    assert(texts(names@) =~= tool_names(tools@));
    let w: usize = widest(names.as_slice());
    let mut j: usize = 0;
    assert(head + tool_lines(tools@, 0) =~= head);
    while j < tools.len()
        invariant
            0 <= j <= tools.len(),
            w == width(tool_names(tools@), tools@.len()),
            s@ == head + tool_lines(tools@, j as nat),
        decreases tools.len() - j,
    {
        s.append("  ");
        pad(&mut s, tools[j].0.as_str(), w);
        s.append("  ");
        s.append(clip(tools[j].1.as_str()).as_str());
        s.append("\n");
        j = j + 1;
        assert(s@ =~= head + tool_lines(tools@, j as nat));
    }
    s.append("\nNothing was recorded — trust is granted only from the in-session screen.");
    s
}

/// A grant that is reported as stale was recorded, and its server is not
/// configured.
pub proof fn stale_grants_are_orphans(
    grants: Seq<Seq<char>>,
    servers: Seq<ServerV>,
    n: nat,
    g: Seq<char>,
)
    requires
        n <= grants.len(),
        orphans(grants, servers, n).contains(g),
    ensures
        is_granted(grants, g),
        !is_configured(servers, g),
    decreases n,
{
    let v = orphans(grants, servers, n);
    let k = choose|k: int| 0 <= k < v.len() && v[k] == g;
    if n > 0 {
        let shorter = orphans(grants, servers, (n - 1) as nat);
        if server_names(servers).contains(grants[n - 1]) {
            stale_grants_are_orphans(grants, servers, (n - 1) as nat, g);
        } else if k < shorter.len() {
            assert(shorter[k] == g);
            stale_grants_are_orphans(grants, servers, (n - 1) as nat, g);
        } else {
            assert(grants[n - 1] == g);
        }
    }
}

proof fn verb_words_differ()
    ensures
        "list"@ != "show"@,
        "list"@ != "add"@,
        "list"@ != "untrust"@,
        "list"@ != "test"@,
        "show"@ != "add"@,
        "show"@ != "untrust"@,
        "show"@ != "test"@,
        "add"@ != "untrust"@,
        "add"@ != "test"@,
        "untrust"@ != "test"@,
{
    reveal_strlit("list");
    reveal_strlit("show");
    reveal_strlit("add");
    reveal_strlit("untrust");
    reveal_strlit("test");
    assert("list"@[0] != "show"@[0]);
    assert("list"@.len() != "add"@.len());
    assert("list"@.len() != "untrust"@.len());
    assert("list"@[0] != "test"@[0]);
    assert("show"@.len() != "add"@.len());
    assert("show"@.len() != "untrust"@.len());
    assert("show"@[0] != "test"@[0]);
    assert("add"@.len() != "untrust"@.len());
    assert("add"@.len() != "test"@.len());
    assert("untrust"@.len() != "test"@.len());
}

/// Each word is its verb, with the arguments that follow it; a word that lacks one,
/// or that is no verb, is none; and no word at all lists.
pub proof fn verbs_take_their_arguments(args: Seq<Seq<char>>)
    ensures
        args.len() < 2 || args[1] == "list"@ ==> verb_of(args) == Some(VerbV::List),
        args.len() >= 2 && args[1] == "show"@ ==> verb_of(args) == (if args.len() >= 3 {
            Some(VerbV::Show(args[2]))
        } else {
            None
        }),
        args.len() >= 2 && args[1] == "untrust"@ ==> verb_of(args) == (if args.len() >= 3 {
            Some(VerbV::Untrust(args[2]))
        } else {
            None
        }),
        args.len() >= 2 && args[1] == "test"@ ==> verb_of(args) == (if args.len() >= 3 {
            Some(VerbV::Test(args[2]))
        } else {
            None
        }),
        args.len() >= 2 && args[1] == "add"@ ==> match verb_of(args) {
            Some(VerbV::Add(name, command, rest)) => args.len() >= 4 && name == args[2] && command
                == args[3] && seq![args[0], args[1], name, command] + rest == args,
            None => args.len() < 4,
            _ => false,
        },
        args.len() >= 2 && args[1] != "list"@ && args[1] != "show"@ && args[1] != "add"@ && args[1]
            != "untrust"@ && args[1] != "test"@ ==> verb_of(args) is None,
{
    verb_words_differ();
    if args.len() >= 4 {
        assert(seq![args[0], args[1], args[2], args[3]] + args.skip(4) =~= args);
    }
}

/// A good name has one to 64 characters, starts with a letter or a digit, and holds
/// nothing else but dots, underscores and hyphens: so it names no other directory
/// and holds no white space and no colon.
pub proof fn good_names_are_plain(s: Seq<char>)
    ensures
        is_valid_name(s) <==> 1 <= s.len() <= 64 && is_alnum(s[0]) && forall|i: int|
            0 <= i < s.len() ==> {
                let c = #[trigger] s[i];
                'a' <= c <= 'z' || 'A' <= c <= 'Z' || '0' <= c <= '9' || c == '.' || c == '_' || c
                    == '-'
            },
        is_valid_name(s) ==> !s.contains('/') && !s.contains(':') && !s.contains(' ') && s != "."@
            && s != ".."@,
{
    reveal_strlit(".");
    reveal_strlit("..");
    if is_valid_name(s) {
        assert forall|c: char| #[trigger] s.contains(c) implies is_name_char(c) by {
            let k = choose|k: int| 0 <= k < s.len() && s[k] == c;
            assert(is_name_char(s[k]));
        }
        assert(!is_alnum("."@[0]));
        assert(!is_alnum(".."@[0]));
    }
    if 1 <= s.len() <= 64 && is_alnum(s[0]) && (forall|i: int|
        0 <= i < s.len() ==> {
            let c = #[trigger] s[i];
            'a' <= c <= 'z' || 'A' <= c <= 'Z' || '0' <= c <= '9' || c == '.' || c == '_' || c == '-'
        }) {
        assert forall|i: int| 0 <= i < s.len() implies is_name_char(#[trigger] s[i]) by {}
    }
}

/// A column is as wide as its widest entry, and no wider.
pub proof fn columns_fit_their_entries(v: Seq<Seq<char>>, n: nat)
    requires
        n <= v.len(),
    ensures
        forall|i: int| 0 <= i < n ==> (#[trigger] v[i]).len() <= width(v, n),
        n > 0 ==> exists|i: int| 0 <= i < n && (#[trigger] v[i]).len() == width(v, n),
        n == 0 ==> width(v, n) == 0,
    decreases n,
{
    if n > 0 {
        columns_fit_their_entries(v, (n - 1) as nat);
        assert(v[n - 1].len() <= width(v, n));
        if n > 1 {
            let i = choose|i: int|
                0 <= i < n - 1 && (#[trigger] v[i]).len() == width(v, (n - 1) as nat);
            assert(v[i].len() <= width(v, n));
        }
    }
}

/// An entry is filled up with blanks to its column's width, and never cut.
pub proof fn entries_are_never_cut(s: Seq<char>, w: nat)
    ensures
        s.is_prefix_of(padded(s, w)),
        padded(s, w).len() == (if s.len() < w {
            w
        } else {
            s.len()
        }),
        forall|i: int| s.len() <= i < padded(s, w).len() ==> #[trigger] padded(s, w)[i] == ' ',
{
    assert(padded(s, w).take(s.len() as int) =~= s);
}

/// A server's program is its command and every argument, one blank between.
pub proof fn programs_are_whole(s: ServerV)
    ensures
        s.args.len() == 0 ==> program_text(s) == s.command,
        s.args.len() > 0 ==> program_text(s) == s.command + " "@ + joined(s.args, " "@),
{
}

/// The list gives a row to every server: its name, its program and its trust.
pub proof fn every_server_is_listed(servers: Seq<ServerV>, labels: Seq<Seq<char>>, n: nat, i: int)
    requires
        0 <= i < n <= servers.len(),
        labels.len() == servers.len(),
    ensures
        exists|a: nat, b: nat|
            occurs(
                rows(servers, labels, n),
                #[trigger] padded(servers[i].name, a) + "  "@ + #[trigger] padded(
                    program_text(servers[i]),
                    b,
                ) + "  "@ + labels[i] + "\n"@,
            ),
    decreases n,
{
    let a = width(server_names(servers), servers.len());
    let b = width(programs(servers), servers.len());
    row_stays(servers, labels, n, i, a, b);
    assert(occurs(
        rows(servers, labels, n),
        padded(servers[i].name, a) + "  "@ + padded(program_text(servers[i]), b) + "  "@ + labels[i]
            + "\n"@,
    ));
}

proof fn row_stays(
    servers: Seq<ServerV>,
    labels: Seq<Seq<char>>,
    n: nat,
    i: int,
    a: nat,
    b: nat,
)
    requires
        0 <= i < n <= servers.len(),
        labels.len() == servers.len(),
        a == width(server_names(servers), servers.len()),
        b == width(programs(servers), servers.len()),
    ensures
        occurs(
            rows(servers, labels, n),
            padded(servers[i].name, a) + "  "@ + padded(program_text(servers[i]), b) + "  "@
                + labels[i] + "\n"@,
        ),
    decreases n,
{
    let before = rows(servers, labels, (n - 1) as nat);
    let x = padded(servers[n - 1].name, a);
    let y = padded(program_text(servers[n - 1]), b);
    let last = x + "  "@ + y + "  "@ + labels[n - 1] + "\n"@;
    group7(before, x, "  "@, y, "  "@, labels[n - 1], "\n"@);
    if i < n - 1 {
        row_stays(servers, labels, (n - 1) as nat, i, a, b);
    }
    occurs_on(
        before,
        last,
        padded(servers[i].name, a) + "  "@ + padded(program_text(servers[i]), b) + "  "@ + labels[i]
            + "\n"@,
    );
}

proof fn orphans_filter(grants: Seq<Seq<char>>, servers: Seq<ServerV>, n: nat)
    requires
        n <= grants.len(),
    ensures
        orphans(grants, servers, n) == grants.take(n as int).filter(
            |g: Seq<char>| !is_configured(servers, g),
        ),
    decreases n,
{
    reveal(Seq::filter);
    if n > 0 {
        orphans_filter(grants, servers, (n - 1) as nat);
        assert(grants.take(n as int).drop_last() =~= grants.take(n - 1));
        assert(grants.take(n as int).last() == grants[n - 1]);
    }
}

/// Every grant for a server that is not configured is stale, and no other: each is
/// listed as often as it is recorded, in order of their names.
pub proof fn every_stale_grant_is_found(grants: Seq<Seq<char>>, servers: Seq<ServerV>)
    ensures
        stale(grants, servers).to_multiset() == grants.filter(
            |g: Seq<char>| !is_configured(servers, g),
        ).to_multiset(),
        crate::text::is_ordered(stale(grants, servers)),
{
    orphans_filter(grants, servers, grants.len());
    assert(grants.take(grants.len() as int) =~= grants);
    crate::text::in_order_is_ordered(orphans(grants, servers, grants.len()));
}

proof fn stale_listed(v: Seq<Seq<char>>, n: nat, i: int)
    requires
        0 <= i < n <= v.len(),
    ensures
        occurs(stale_lines(v, n), "run: hotl mcp untrust "@ + v[i] + "\n"@),
    decreases n,
{
    let before = stale_lines(v, (n - 1) as nat);
    let last = "warning: "@ + stale_note(v[n - 1]) + "\n"@;
    group4(before, "warning: "@, stale_note(v[n - 1]), "\n"@);
    if i == n - 1 {
        notes_end_so(v[i]);
    } else {
        stale_listed(v, (n - 1) as nat, i);
    }
    occurs_on(before, last, "run: hotl mcp untrust "@ + v[i] + "\n"@);
}

proof fn notes_end_so(name: Seq<char>)
    ensures
        occurs("warning: "@ + stale_note(name) + "\n"@, "run: hotl mcp untrust "@ + name + "\n"@),
{
    reveal_strlit("`, which is no longer configured — run: hotl mcp untrust ");
    reveal_strlit("run: hotl mcp untrust ");
    let line = "run: hotl mcp untrust "@ + name + "\n"@;
    let w = "warning: "@ + stale_note(name) + "\n"@;
    let k = w.len() - line.len();
    assert(w.subrange(k, w.len() as int) =~= line);
    assert(crate::text::occurs_at(w, line, k));
}

proof fn warnings_listed(v: Seq<Seq<char>>, n: nat, i: int)
    requires
        0 <= i < n <= v.len(),
    ensures
        occurs(warning_lines(v, n), "warning: "@ + v[i] + "\n"@),
    decreases n,
{
    let before = warning_lines(v, (n - 1) as nat);
    group4(before, "warning: "@, v[n - 1], "\n"@);
    if i < n - 1 {
        warnings_listed(v, (n - 1) as nat, i);
    }
    occurs_on(before, "warning: "@ + v[n - 1] + "\n"@, "warning: "@ + v[i] + "\n"@);
}

/// The list gives every warning a line, and every stale grant one with the command
/// that revokes it.
pub proof fn every_warning_is_listed(
    servers: Seq<ServerV>,
    labels: Seq<Seq<char>>,
    warnings: Seq<Seq<char>>,
    grants: Seq<Seq<char>>,
    i: int,
)
    ensures
        0 <= i < warnings.len() ==> occurs(
            roster_text(servers, labels, warnings, grants),
            "warning: "@ + warnings[i] + "\n"@,
        ),
        0 <= i < stale(grants, servers).len() ==> occurs(
            roster_text(servers, labels, warnings, grants),
            "run: hotl mcp untrust "@ + stale(grants, servers)[i] + "\n"@,
        ),
{
    let r = roster_text(servers, labels, warnings, grants);
    let left = stale(grants, servers);
    let w = warning_lines(warnings, warnings.len());
    let s = stale_lines(left, left.len());
    let none = Seq::<char>::empty();
    let head = r.take(r.len() - s.len() - w.len());
    assert(r =~= head + w + s);
    if 0 <= i < warnings.len() {
        warnings_listed(warnings, warnings.len(), i);
        occurs_between(head, w, s, "warning: "@ + warnings[i] + "\n"@);
    }
    if 0 <= i < left.len() {
        stale_listed(left, left.len(), i);
        occurs_between(head + w, s, none, "run: hotl mcp untrust "@ + left[i] + "\n"@);
        assert(r =~= head + w + s + none);
    }
}

/// A text is clipped to its first line, and that to sixty characters, with a mark
/// where anything of it is left out.
pub proof fn clips_are_the_start_of_the_first_line(s: Seq<char>)
    ensures
        lines_of(s).len() == 0 ==> clipped(s).len() == 0,
        lines_of(s).len() > 0 && lines_of(s)[0].len() <= 60 ==> clipped(s) == lines_of(s)[0],
        lines_of(s).len() > 0 && lines_of(s)[0].len() > 60 ==> clipped(s) == lines_of(s)[0].take(60)
            + "…"@,
{
}

proof fn tools_listed(v: Seq<(String, String)>, n: nat, i: int, w: nat)
    requires
        0 <= i < n <= v.len(),
        w == width(tool_names(v), v.len()),
    ensures
        occurs(tool_lines(v, n), "  "@ + padded(v[i].0@, w) + "  "@ + clipped(v[i].1@) + "\n"@),
    decreases n,
{
    let before = tool_lines(v, (n - 1) as nat);
    let x = padded(v[n - 1].0@, w);
    let y = clipped(v[n - 1].1@);
    group6(before, "  "@, x, "  "@, y, "\n"@);
    if i < n - 1 {
        tools_listed(v, (n - 1) as nat, i, w);
    }
    occurs_on(
        before,
        "  "@ + x + "  "@ + y + "\n"@,
        "  "@ + padded(v[i].0@, w) + "  "@ + clipped(v[i].1@) + "\n"@,
    );
}

/// A test gives a line to every tool: its name, and the start of what it says of
/// itself.
pub proof fn every_tool_is_listed(v: Seq<(String, String)>, i: int)
    requires
        0 <= i < v.len(),
    ensures
        exists|w: nat|
            occurs(
                tool_lines(v, v.len()),
                "  "@ + #[trigger] padded(v[i].0@, w) + "  "@ + clipped(v[i].1@) + "\n"@,
            ),
{
    let w = width(tool_names(v), v.len());
    tools_listed(v, v.len(), i, w);
    let line = "  "@ + padded(v[i].0@, w) + "  "@ + clipped(v[i].1@) + "\n"@;
    assert(occurs(tool_lines(v, v.len()), line));
}

/// The block to paste holds the server's name, its command and its arguments as they
/// were given, and a description that is still to be written.
pub proof fn blocks_hold_what_was_given(name: Seq<char>, command: Seq<char>, args: Seq<Seq<char>>)
    ensures
        ({
            let f = block_fields(name, command, args);
            &&& f.len() == 4
            &&& f[0] == ("name"@, FieldV::Text(name))
            &&& f[1] == ("command"@, FieldV::Text(command))
            &&& f[2] == ("args"@, FieldV::List(args))
            &&& f[3] == ("description"@, FieldV::Text(""@))
        }),
{
}

proof fn indented_lines(v: Seq<Seq<char>>, n: nat, i: int)
    requires
        0 <= i < n <= v.len(),
    ensures
        occurs(indented(v, n), "    "@ + v[i] + "\n"@),
    decreases n,
{
    let before = indented(v, (n - 1) as nat);
    group4(before, "    "@, v[n - 1], "\n"@);
    if i < n - 1 {
        indented_lines(v, (n - 1) as nat, i);
    }
    occurs_on(before, "    "@ + v[n - 1] + "\n"@, "    "@ + v[i] + "\n"@);
}

/// What is to be pasted is shown whole: every line of it, indented.
pub proof fn every_line_is_there_to_paste(doc: Seq<char>, i: int)
    requires
        0 <= i < lines_of(doc).len(),
    ensures
        occurs(paste_text(doc), "    "@ + lines_of(doc)[i] + "\n"@),
{
    let v = lines_of(doc);
    indented_lines(v, v.len(), i);
    let p = paste_text(doc);
    let head = "add this to ~/.config/hotl/config.toml\n\n"@;
    let body = indented(v, v.len());
    let tail = p.skip((head + body).len() as int);
    occurs_between(head, body, tail, "    "@ + v[i] + "\n"@);
    assert(p =~= head + body + tail);
}

/// A server that is not found is named, and so is every one that is there instead.
pub proof fn the_others_are_named(servers: Seq<ServerV>, name: Seq<char>)
    ensures
        occurs(not_found(servers, name), name),
        servers.len() > 0 ==> occurs(
            not_found(servers, name),
            joined(server_names(servers), ", "@),
        ),
{
    let s = not_found(servers, name);
    let k = "no server named `"@.len() as int;
    assert(s.subrange(k, k + name.len()) =~= name);
    assert(crate::text::occurs_at(s, name, k));
    if servers.len() > 0 {
        let j = joined(server_names(servers), ", "@);
        let m = ("no server named `"@ + name + "` is configured. Configured: "@).len() as int;
        assert(s.subrange(m, m + j.len()) =~= j);
        assert(crate::text::occurs_at(s, j, m));
    }
}

} // verus!
