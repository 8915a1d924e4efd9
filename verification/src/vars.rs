//! The process environment, as plain values.
use crate::config::pairs;
use crate::paths::{join, joined_path};
use crate::text::{opt_str, opt_text, same};
use vstd::prelude::*;
use vstd::string::*;

verus! {

/// Variables by name.
#[derive(Debug)]
pub struct Env {
    pub vars: Vec<(String, String)>,
}

/// The value of the variable `name`: that of its first entry.
pub open spec fn var(vars: Seq<(Seq<char>, Seq<char>)>, name: Seq<char>) -> Option<Seq<char>>
    decreases vars.len(),
{
    if vars.len() == 0 {
        None
    } else if vars[0].0 == name {
        Some(vars[0].1)
    } else {
        var(vars.drop_first(), name)
    }
}

/// The variable `name`, else what is configured.
pub open spec fn var_or(
    vars: Seq<(Seq<char>, Seq<char>)>,
    name: Seq<char>,
    configured: Option<Seq<char>>,
) -> Option<Seq<char>> {
    match var(vars, name) {
        Some(v) => Some(v),
        None => configured,
    }
}

impl View for Env {
    type V = Seq<(Seq<char>, Seq<char>)>;

    open spec fn view(&self) -> Seq<(Seq<char>, Seq<char>)> {
        pairs(self.vars@)
    }
}

impl Env {
    /// The value of a variable.
    pub fn get(&self, name: &str) -> (r: Option<&str>)
        ensures
            opt_str(r) == var(self@, name@),
    {
        let mut i: usize = 0;
        assert(self@.skip(0) =~= self@);
        while i < self.vars.len()
            invariant
                0 <= i <= self.vars.len(),
                var(self@, name@) == var(self@.skip(i as int), name@),
            decreases self.vars.len() - i,
        {
            let entry = &self.vars[i];
            assert(self@.skip(i as int)[0] == (entry.0@, entry.1@));
            assert(self@.skip(i as int).drop_first() =~= self@.skip(i + 1));
            if same(entry.0.as_str(), name) {
                return Some(entry.1.as_str());
            }
            i = i + 1;
        }
        None
    }

    /// The value of a variable, else what is configured.
    pub fn get_or<'a>(&'a self, name: &str, configured: &'a Option<String>) -> (r: Option<&'a str>)
        ensures
            opt_str(r) == var_or(self@, name@, opt_text(*configured)),
    {
        match self.get(name) {
            Some(v) => Some(v),
            None => match configured {
                Some(s) => Some(s.as_str()),
                None => None,
            },
        }
    }
}

/// The base directory that `name` sets, else `under` in the home directory,
/// else the current one.
pub open spec fn base_dir(
    vars: Seq<(Seq<char>, Seq<char>)>,
    name: Seq<char>,
    under: Seq<char>,
) -> Seq<char> {
    match var(vars, name) {
        Some(d) => d,
        None => match var(vars, "HOME"@) {
            Some(h) => joined_path(h, under),
            None => "."@,
        },
    }
}

fn base(env: &Env, name: &str, under: &str) -> (r: String)
    ensures
        r@ == base_dir(env@, name@, under@),
{
    match env.get(name) {
        Some(d) => d.to_owned(),
        None => match env.get("HOME") {
            Some(h) => join(h, under),
            None => ".".to_owned(),
        },
    }
}

/// Where the configuration lies.
pub open spec fn config_path(vars: Seq<(Seq<char>, Seq<char>)>) -> Seq<char> {
    joined_path(base_dir(vars, "XDG_CONFIG_HOME"@, ".config"@), "hotl"@)
}

/// Where state and data lie.
pub open spec fn data_path(vars: Seq<(Seq<char>, Seq<char>)>) -> Seq<char> {
    joined_path(base_dir(vars, "XDG_DATA_HOME"@, ".local/share"@), "hotl"@)
}

/// The configuration directory.
pub fn config_dir(env: &Env) -> (r: String)
    ensures
        r@ == config_path(env@),
{
    join(base(env, "XDG_CONFIG_HOME", ".config").as_str(), "hotl")
}

/// The data directory: sessions, snapshots and history lie in it.
pub fn data_dir(env: &Env) -> (r: String)
    ensures
        r@ == data_path(env@),
{
    join(base(env, "XDG_DATA_HOME", ".local/share").as_str(), "hotl")
}

/// The directory of the session logs.
pub fn sessions_dir(env: &Env) -> (r: String)
    ensures
        r@ == joined_path(data_path(env@), "sessions"@),
{
    join(data_dir(env).as_str(), "sessions")
}

/// The directory of the workspace snapshots, beside the session logs.
pub fn shadow_root(env: &Env) -> (r: String)
    ensures
        r@ == joined_path(data_path(env@), "shadow"@),
{
    join(data_dir(env).as_str(), "shadow")
}

/// A variable's value is that of the first entry of its name; one without an entry
/// has none.
pub proof fn variables_are_found(vars: Seq<(Seq<char>, Seq<char>)>, name: Seq<char>, i: int)
    ensures
        0 <= i < vars.len() && vars[i].0 == name && (forall|k: int|
            0 <= k < i ==> (#[trigger] vars[k]).0 != name) ==> var(vars, name) == Some(vars[i].1),
        (forall|k: int| 0 <= k < vars.len() ==> (#[trigger] vars[k]).0 != name) ==> var(vars, name)
            is None,
    decreases vars.len(),
{
    if vars.len() > 0 && vars[0].0 != name {
        let t = vars.drop_first();
        variables_are_found(t, name, i - 1);
        if 0 <= i < vars.len() && vars[i].0 == name && (forall|k: int|
            0 <= k < i ==> (#[trigger] vars[k]).0 != name) {
            assert(t[i - 1] == vars[i]);
            assert forall|k: int| 0 <= k < i - 1 implies (#[trigger] t[k]).0 != name by {
                assert(t[k] == vars[k + 1]);
            }
        }
        if forall|k: int| 0 <= k < vars.len() ==> (#[trigger] vars[k]).0 != name {
            assert forall|k: int| 0 <= k < t.len() implies (#[trigger] t[k]).0 != name by {
                assert(t[k] == vars[k + 1]);
            }
        }
    } else if 0 < i < vars.len() {
        assert(vars[0].0 == name);
    }
}

/// A set variable comes before what is configured.
pub proof fn variables_win(
    vars: Seq<(Seq<char>, Seq<char>)>,
    name: Seq<char>,
    configured: Option<Seq<char>>,
)
    ensures
        var(vars, name) is Some ==> var_or(vars, name, configured) == var(vars, name),
        var(vars, name) is None ==> var_or(vars, name, configured) == configured,
{
}

/// Configuration and data lie in directories of their own: where the base directory
/// is set, in it; else under the home directory, in its usual places.
pub proof fn directories_are_the_usual_ones(
    vars: Seq<(Seq<char>, Seq<char>)>,
    set: Seq<char>,
    home: Seq<char>,
)
    ensures
        var(vars, "XDG_CONFIG_HOME"@) == Some(set) ==> config_path(vars) == joined_path(
            set,
            "hotl"@,
        ),
        var(vars, "XDG_CONFIG_HOME"@) is None && var(vars, "HOME"@) == Some(home) ==> config_path(
            vars,
        ) == joined_path(joined_path(home, ".config"@), "hotl"@),
        var(vars, "XDG_DATA_HOME"@) == Some(set) ==> data_path(vars) == joined_path(set, "hotl"@),
        var(vars, "XDG_DATA_HOME"@) is None && var(vars, "HOME"@) == Some(home) ==> data_path(vars)
            == joined_path(joined_path(home, ".local/share"@), "hotl"@),
{
}

} // verus!
