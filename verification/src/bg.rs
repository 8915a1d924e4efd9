//! `hotl bg`: the detached server's identity and its command line.
use crate::text::{decimal, decimal_of, opt_str, texts};
use vstd::prelude::*;
use vstd::string::*;

verus! {

/// The id of a background session that the process `pid` launches.
pub open spec fn background_id(pid: nat) -> Seq<char> {
    "bg-"@ + decimal_of(pid)
}

/// The id of a background session that the process `pid` launches.
pub fn session_id(pid: u32) -> (r: String)
    ensures
        r@ == background_id(pid as nat),
{
    let mut s = "bg-".to_owned();
    s.append(decimal(pid as u64).as_str());
    s
}

/// Two launchers with different process ids never share a session id.
pub proof fn ids_are_distinct(a: nat, b: nat)
    requires
        a != b,
    ensures
        background_id(a) != background_id(b),
{
    if background_id(a) == background_id(b) {
        let n = "bg-"@.len() as int;
        assert(background_id(a).skip(n) =~= decimal_of(a));
        assert(background_id(b).skip(n) =~= decimal_of(b));
        crate::text::decimal_injective(a, b);
    }
}

/// `v` with a flag and its value at the end, where there is a value.
pub open spec fn with_flag(
    v: Seq<Seq<char>>,
    flag: Seq<char>,
    value: Option<Seq<char>>,
) -> Seq<Seq<char>> {
    match value {
        Some(x) => v.push(flag).push(x),
        None => v,
    }
}

/// The arguments of the detached server.
pub open spec fn serve_args(
    id: Seq<char>,
    prompt: Option<Seq<char>>,
    name: Option<Seq<char>>,
) -> Seq<Seq<char>> {
    with_flag(with_flag(seq!["serve"@, "--id"@, id], "--prompt"@, prompt), "--name"@, name)
}

/// The arguments of the detached server.
pub fn serve_argv(id: &str, prompt: Option<&str>, name: Option<&str>) -> (r: Vec<String>)
    ensures
        texts(r@) == serve_args(id@, opt_str(prompt), opt_str(name)),
{
    let mut v: Vec<String> = Vec::new();
    v.push("serve".to_owned());
    v.push("--id".to_owned());
    v.push(id.to_owned());
    assert(texts(v@) =~= seq!["serve"@, "--id"@, id@]);
    if let Some(p) = prompt {
        let ghost before = texts(v@);
        v.push("--prompt".to_owned());
        v.push(p.to_owned());
        assert(texts(v@) =~= before.push("--prompt"@).push(p@));
    }
    if let Some(n) = name {
        let ghost before = texts(v@);
        v.push("--name".to_owned());
        v.push(n.to_owned());
        assert(texts(v@) =~= before.push("--name"@).push(n@));
    }
    v
}

/// What the launcher prints once the server runs.
pub open spec fn started_text(id: Seq<char>, log: Seq<char>) -> Seq<char> {
    "started background session "@ + id + "\n  attach:  hotl attach "@ + id
        + "\n  list:    hotl attach            (bare)\n  log:     "@ + log
        + "\nThe session inherits this shell's provider env (HOTL_MODEL + key). Asks park until you attach and approve them."@
}

/// What the launcher prints once the server runs.
pub fn started(id: &str, log: &str) -> (r: String)
    ensures
        r@ == started_text(id@, log@),
{
    let mut s = "started background session ".to_owned();
    s.append(id);
    s.append("\n  attach:  hotl attach ");
    s.append(id);
    s.append("\n  list:    hotl attach            (bare)\n  log:     ");
    s.append(log);
    s.append(
        "\nThe session inherits this shell's provider env (HOTL_MODEL + key). Asks park until you attach and approve them.",
    );
    s
}

/// The server is started under the id, with the prompt and the name where there are
/// some, each behind its own flag, and with nothing else.
pub proof fn servers_are_started_with_what_is_given(
    id: Seq<char>,
    prompt: Option<Seq<char>>,
    name: Option<Seq<char>>,
)
    ensures
        ({
            let a = serve_args(id, prompt, name);
            let p: int = if prompt is Some {
                2
            } else {
                0
            };
            &&& a.len() == 3 + p + (if name is Some {
                2int
            } else {
                0
            })
            &&& a[0] == "serve"@ && a[1] == "--id"@ && a[2] == id
            &&& prompt matches Some(x) ==> a[3] == "--prompt"@ && a[4] == x
            &&& name matches Some(x) ==> a[3 + p] == "--name"@ && a[4 + p] == x
        }),
{
}

/// What is said of a new session gives its id, the way to attach to it, and its log.
pub proof fn starts_are_told(id: Seq<char>, log: Seq<char>)
    ensures
        crate::text::occurs(started_text(id, log), "hotl attach "@ + id),
        crate::text::occurs(started_text(id, log), log),
        ("started background session "@ + id).is_prefix_of(started_text(id, log)),
{
    reveal_strlit("\n  attach:  hotl attach ");
    reveal_strlit("hotl attach ");
    let s = started_text(id, log);
    let a = "started background session "@ + id;
    assert(s.take(a.len() as int) =~= a);
    let x = "hotl attach "@ + id;
    let k = (a + "\n  attach:  hotl attach "@).len() - "hotl attach "@.len();
    assert(s.subrange(k, k + x.len()) =~= x);
    assert(crate::text::occurs_at(s, x, k));
    let m = (a + "\n  attach:  hotl attach "@ + id
        + "\n  list:    hotl attach            (bare)\n  log:     "@).len() as int;
    assert(s.subrange(m, m + log.len()) =~= log);
    assert(crate::text::occurs_at(s, log, m));
}

} // verus!
