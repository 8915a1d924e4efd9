//! `[sandbox]`: what sandboxed commands may write, and what they may not read.
//!
//! Resolution fails closed, entry by entry: a bad entry is dropped with a
//! warning and never takes the rest down. What the file system says of an entry
//! is handed in; every decision is taken here.
use crate::paths::{
    expand_home, home_expanded, is_absolute, is_rooted, overlap, overlaps, path_parts, same_path,
    starts_with, within,
};
use crate::text::{opt_str, opt_text, same, texts};
use vstd::prelude::*;
use vstd::string::*;

verus! {

/// `[sandbox]`: owner-configured widening of the write floor.
#[derive(Debug)]
pub struct SandboxCfg {
    /// Extra directories that sandboxed commands may write to.
    pub writable: Vec<String>,
    /// Paths lifted out of the credential read-deny.
    pub readable: Vec<String>,
    /// `"workspace"` (the default) or `"writable"`.
    pub file_tools: Option<String>,
}

impl Default for SandboxCfg {
    fn default() -> (r: Self)
        ensures
            r.writable@.len() == 0,
            r.readable@.len() == 0,
            r.file_tools is None,
    {
        SandboxCfg { writable: Vec::new(), readable: Vec::new(), file_tools: None }
    }
}

/// How far the mutating file tools follow the writable roots.
#[derive(Debug, Clone, Copy, PartialEq, Eq, Structural)]
pub enum FileToolsMode {
    Workspace,
    Writable,
}

/// The read-deny: hotl's own directories, the credential class, and what the
/// owner's deny rules imply.
#[derive(Debug)]
pub struct ReadDeny {
    pub always: Vec<String>,
    pub secrets: Vec<String>,
    pub rules: Vec<String>,
}

/// hotl's own directories, as configured and with links resolved.
#[derive(Debug)]
pub struct OwnDirs {
    pub config: String,
    pub data: String,
    pub config_real: String,
    pub data_real: String,
}

/// The view of [`OwnDirs`].
pub struct OwnDirsV {
    pub config: Seq<char>,
    pub data: Seq<char>,
    pub config_real: Seq<char>,
    pub data_real: Seq<char>,
}

impl View for OwnDirs {
    type V = OwnDirsV;

    open spec fn view(&self) -> OwnDirsV {
        OwnDirsV {
            config: self.config@,
            data: self.data@,
            config_real: self.config_real@,
            data_real: self.data_real@,
        }
    }
}

/// What became of an entry that was to be made writable.
#[derive(Debug)]
pub enum DirProbe {
    /// It was missing and could not be created.
    CreateFailed(String),
    /// It could not be resolved.
    Unresolved(String),
    /// Where it leads, and whether that is a directory.
    Resolved(String, bool),
}

/// The view of a [`DirProbe`].
pub enum DirProbeV {
    CreateFailed(Seq<char>),
    Unresolved(Seq<char>),
    Resolved(Seq<char>, bool),
}

impl View for DirProbe {
    type V = DirProbeV;

    open spec fn view(&self) -> DirProbeV {
        match *self {
            DirProbe::CreateFailed(e) => DirProbeV::CreateFailed(e@),
            DirProbe::Unresolved(e) => DirProbeV::Unresolved(e@),
            DirProbe::Resolved(p, d) => DirProbeV::Resolved(p@, d),
        }
    }
}

/// The views of the probes of a list of entries.
pub open spec fn dir_probes(v: Seq<Option<DirProbe>>) -> Seq<Option<DirProbeV>> {
    Seq::new(
        v.len(),
        |i: int|
            match v[i] {
                Some(p) => Some(p@),
                None => None,
            },
    )
}

/// What became of an entry that was to be lifted out of the read-deny.
#[derive(Debug)]
pub enum ReadProbe {
    Missing,
    Unresolved(String),
    Resolved(String),
}

/// The view of a [`ReadProbe`].
pub enum ReadProbeV {
    Missing,
    Unresolved(Seq<char>),
    Resolved(Seq<char>),
}

impl View for ReadProbe {
    type V = ReadProbeV;

    open spec fn view(&self) -> ReadProbeV {
        match *self {
            ReadProbe::Missing => ReadProbeV::Missing,
            ReadProbe::Unresolved(e) => ReadProbeV::Unresolved(e@),
            ReadProbe::Resolved(p) => ReadProbeV::Resolved(p@),
        }
    }
}

/// The views of the probes of a list of entries.
pub open spec fn read_probes(v: Seq<Option<ReadProbe>>) -> Seq<Option<ReadProbeV>> {
    Seq::new(
        v.len(),
        |i: int|
            match v[i] {
                Some(p) => Some(p@),
                None => None,
            },
    )
}

/// A path that a deny rule keeps from being read, and the rule's own words.
#[derive(Debug)]
pub struct ProjectedRule {
    pub path: String,
    pub rule: String,
}

/// The views of projected rules: path and words.
pub open spec fn projections(v: Seq<ProjectedRule>) -> Seq<(Seq<char>, Seq<char>)> {
    Seq::new(v.len(), |i: int| (v[i].path@, v[i].rule@))
}

/// The system roots that are honored with a warning.
pub open spec fn risky_names() -> Seq<Seq<char>> {
    seq![
        "/etc"@,
        "/usr"@,
        "/bin"@,
        "/sbin"@,
        "/lib"@,
        "/boot"@,
        "/opt"@,
        "/System"@,
        "/Library"@,
        "/Applications"@,
    ]
}

/// The system roots that are honored with a warning.
pub fn risky_roots() -> (r: Vec<String>)
    ensures
        texts(r@) == risky_names(),
{
    let mut v: Vec<String> = Vec::new();
    v.push("/etc".to_owned());
    v.push("/usr".to_owned());
    v.push("/bin".to_owned());
    v.push("/sbin".to_owned());
    v.push("/lib".to_owned());
    v.push("/boot".to_owned());
    v.push("/opt".to_owned());
    v.push("/System".to_owned());
    v.push("/Library".to_owned());
    v.push("/Applications".to_owned());
    assert(texts(v@) =~= risky_names());
    v
}

/// The name of the first system root, from number `i` on, that `p` overlaps;
/// `reals` are the roots with links resolved.
pub open spec fn risky_from(p: Seq<char>, reals: Seq<Seq<char>>, i: int) -> Option<Seq<char>>
    decreases reals.len() - i,
{
    if i < 0 || i >= reals.len() || i >= risky_names().len() {
        None
    } else if overlap(p, reals[i]) {
        Some(risky_names()[i])
    } else {
        risky_from(p, reals, i + 1)
    }
}

/// The name of the first system root that `p` overlaps.
pub fn risky_root(p: &str, reals: &[String]) -> (r: Option<String>)
    ensures
        opt_text(r) == risky_from(p@, texts(reals@), 0),
{
    let names = risky_roots();
    let mut i: usize = 0;
    while i < reals.len() && i < names.len()
        invariant
            0 <= i <= reals.len(),
            i <= names.len(),
            texts(names@) == risky_names(),
            risky_from(p@, texts(reals@), 0) == risky_from(p@, texts(reals@), i as int),
        decreases reals.len() - i,
    {
        assert(texts(names@)[i as int] == names@[i as int]@);
        assert(texts(reals@)[i as int] == reals@[i as int]@);
        if overlaps(p, reals[i].as_str()) {
            return Some(names[i].clone());
        }
        i = i + 1;
    }
    None
}

/// Whether `p` touches one of hotl's own directories, links resolved.
pub open spec fn touches_own(p: Seq<char>, own: OwnDirsV) -> bool {
    overlap(p, own.config_real) || overlap(p, own.data_real)
}

/// Whether `p` touches one of hotl's own directories, as written or resolved.
pub open spec fn touches_own_anyhow(p: Seq<char>, own: OwnDirsV) -> bool {
    touches_own(p, own) || overlap(p, own.config) || overlap(p, own.data)
}

/// The head of every message about a writable entry.
pub open spec fn writable_label(entry: Seq<char>) -> Seq<char> {
    "[sandbox].writable `"@ + entry
}

/// The refusal of a writable entry that would expose hotl's own directories.
pub open spec fn writable_refusal(entry: Seq<char>) -> Seq<char> {
    writable_label(entry)
        + "` would expose hotl's own config/state (allow-rules, hooks, session logs) to sandboxed commands — entry refused"@
}

/// Why a writable entry is turned away before anything is created, if it is.
pub open spec fn writable_objection(
    entry: Seq<char>,
    own: OwnDirsV,
    home: Option<Seq<char>>,
) -> Option<Seq<char>> {
    let p = home_expanded(entry, home);
    if !is_rooted(p) {
        Some(writable_label(entry) + "` is not an absolute path — entry ignored"@)
    } else if touches_own_anyhow(p, own) {
        Some(writable_refusal(entry))
    } else {
        None
    }
}

/// What a writable entry comes to: the directory that is granted, if any, and
/// the warning, if any.
pub open spec fn writable_outcome(
    entry: Seq<char>,
    probe: Option<DirProbeV>,
    own: OwnDirsV,
    home: Option<Seq<char>>,
    reals: Seq<Seq<char>>,
) -> (Option<Seq<char>>, Option<Seq<char>>) {
    match writable_objection(entry, own, home) {
        Some(w) => (None, Some(w)),
        None => match probe {
            None => (None, None),
            Some(DirProbeV::CreateFailed(e)) => (
                None,
                Some(writable_label(entry) + "` cannot be created: "@ + e + " — entry ignored"@),
            ),
            Some(DirProbeV::Unresolved(e)) => (
                None,
                Some(writable_label(entry) + "` cannot be resolved: "@ + e + " — entry ignored"@),
            ),
            Some(DirProbeV::Resolved(p, is_dir)) => if !is_dir {
                (None, Some(writable_label(entry) + "` is not a directory — entry ignored"@))
            } else if touches_own(p, own) {
                (None, Some(writable_refusal(entry)))
            } else {
                (
                    Some(p),
                    match risky_from(p, reals, 0) {
                        Some(root) => Some(
                            writable_label(entry) + "` grants writes under the system root "@ + root
                                + " — honored, but binaries and configuration living there become writable to every sandboxed command"@,
                        ),
                        None => None,
                    },
                )
            },
        },
    }
}

/// Whether a path of `v` is the path `p`.
pub open spec fn lists(v: Seq<Seq<char>>, p: Seq<char>) -> bool {
    exists|k: int| 0 <= k < v.len() && path_parts(#[trigger] v[k]) == path_parts(p)
}

/// `v` with `p` at its end, unless it lists it or there is none.
pub open spec fn listed(v: Seq<Seq<char>>, p: Option<Seq<char>>) -> Seq<Seq<char>> {
    match p {
        Some(x) => if lists(v, x) {
            v
        } else {
            v.push(x)
        },
        None => v,
    }
}

/// `v` with `w` at its end, where there is one.
pub open spec fn noted(v: Seq<Seq<char>>, w: Option<Seq<char>>) -> Seq<Seq<char>> {
    match w {
        Some(x) => v.push(x),
        None => v,
    }
}

/// The directories that the first `n` entries grant.
pub open spec fn granted_upto(
    entries: Seq<Seq<char>>,
    probes: Seq<Option<DirProbeV>>,
    own: OwnDirsV,
    home: Option<Seq<char>>,
    reals: Seq<Seq<char>>,
    n: nat,
) -> Seq<Seq<char>>
    decreases n,
{
    if n == 0 {
        Seq::empty()
    } else {
        listed(
            granted_upto(entries, probes, own, home, reals, (n - 1) as nat),
            writable_outcome(entries[n - 1], probes[n - 1], own, home, reals).0,
        )
    }
}

/// The warnings about the first `n` entries.
pub open spec fn writable_warnings(
    entries: Seq<Seq<char>>,
    probes: Seq<Option<DirProbeV>>,
    own: OwnDirsV,
    home: Option<Seq<char>>,
    reals: Seq<Seq<char>>,
    n: nat,
) -> Seq<Seq<char>>
    decreases n,
{
    if n == 0 {
        Seq::empty()
    } else {
        noted(
            writable_warnings(entries, probes, own, home, reals, (n - 1) as nat),
            writable_outcome(entries[n - 1], probes[n - 1], own, home, reals).1,
        )
    }
}

/// What a `file_tools` word means; an unknown one is the workspace.
pub open spec fn file_tools_of(word: Option<Seq<char>>) -> FileToolsMode {
    if word == Some("writable"@) {
        FileToolsMode::Writable
    } else {
        FileToolsMode::Workspace
    }
}

/// The warnings about a `file_tools` word, given the granted directories.
pub open spec fn file_tools_warnings(word: Option<Seq<char>>, granted: nat) -> Seq<Seq<char>> {
    match word {
        None => Seq::empty(),
        Some(w) => if w == "workspace"@ {
            Seq::empty()
        } else if w == "writable"@ {
            if granted == 0 {
                seq![
                    "[sandbox].file_tools = \"writable\" has no effect: `writable` is empty (or every entry was refused)"@,
                ]
            } else {
                Seq::empty()
            }
        } else {
            seq![
                "config.toml [sandbox].file_tools = \""@ + w
                    + "\" is not a mode (workspace | writable) — failing closed to \"workspace\""@,
            ]
        },
    }
}

/// Whether `p` touches one of hotl's own directories, links resolved.
fn touches(p: &str, own: &OwnDirs) -> (r: bool)
    ensures
        r == touches_own(p@, own@),
{
    overlaps(p, own.config_real.as_str()) || overlaps(p, own.data_real.as_str())
}

fn labelled(head: &str, entry: &str, rest: &str) -> (r: String)
    ensures
        r@ == head@ + entry@ + rest@,
{
    let mut s = head.to_owned();
    s.append(entry);
    s.append(rest);
    s
}

/// Looks at a writable entry before anything is created for it: the expanded
/// path to probe, or the warning that turns it away.
pub fn writable_precheck(entry: &str, own: &OwnDirs, home: Option<&str>) -> (r: Result<
    String,
    String,
>)
    ensures
        match r {
            Ok(p) => writable_objection(entry@, own@, opt_str(home)) is None && p@ == home_expanded(
                entry@,
                opt_str(home),
            ),
            Err(w) => writable_objection(entry@, own@, opt_str(home)) == Some(w@),
        },
{
    let p = expand_home(entry, home);
    if !is_absolute(p.as_str()) {
        return Err(
            labelled("[sandbox].writable `", entry, "` is not an absolute path — entry ignored"),
        );
    }
    if touches(p.as_str(), own) || overlaps(p.as_str(), own.config.as_str()) || overlaps(
        p.as_str(),
        own.data.as_str(),
    ) {
        return Err(
            labelled(
                "[sandbox].writable `",
                entry,
                "` would expose hotl's own config/state (allow-rules, hooks, session logs) to sandboxed commands — entry refused",
            ),
        );
    }
    Ok(p)
}

/// What a writable entry comes to, once it was probed.
fn settle_writable(
    entry: &str,
    probe: &Option<DirProbe>,
    own: &OwnDirs,
    home: Option<&str>,
    reals: &[String],
) -> (r: (Option<String>, Option<String>))
    ensures
        (opt_text(r.0), opt_text(r.1)) == writable_outcome(
            entry@,
            (match *probe {
                Some(p) => Some(p@),
                None => None,
            }),
            own@,
            opt_str(home),
            texts(reals@),
        ),
{
    match writable_precheck(entry, own, home) {
        Err(w) => {
            return (None, Some(w));
        },
        Ok(_) => {},
    }
    match probe {
        None => (None, None),
        Some(DirProbe::CreateFailed(e)) => {
            let mut w = labelled("[sandbox].writable `", entry, "` cannot be created: ");
            w.append(e.as_str());
            w.append(" — entry ignored");
            (None, Some(w))
        },
        Some(DirProbe::Unresolved(e)) => {
            let mut w = labelled("[sandbox].writable `", entry, "` cannot be resolved: ");
            w.append(e.as_str());
            w.append(" — entry ignored");
            (None, Some(w))
        },
        Some(DirProbe::Resolved(p, is_dir)) => {
            if !*is_dir {
                let w = labelled(
                    "[sandbox].writable `",
                    entry,
                    "` is not a directory — entry ignored",
                );
                (None, Some(w))
            } else if touches(p.as_str(), own) {
                let w = labelled(
                    "[sandbox].writable `",
                    entry,
                    "` would expose hotl's own config/state (allow-rules, hooks, session logs) to sandboxed commands — entry refused",
                );
                (None, Some(w))
            } else {
                match risky_root(p.as_str(), reals) {
                    Some(root) => {
                        let mut w = labelled(
                            "[sandbox].writable `",
                            entry,
                            "` grants writes under the system root ",
                        );
                        w.append(root.as_str());
                        w.append(
                            " — honored, but binaries and configuration living there become writable to every sandboxed command",
                        );
                        (Some(p.clone()), Some(w))
                    },
                    None => (Some(p.clone()), None),
                }
            }
        },
    }
}

/// Whether a path of `v` is the path `p`.
fn is_listed(v: &[String], p: &str) -> (r: bool)
    ensures
        r == lists(texts(v@), p@),
{
    let mut i: usize = 0;
    while i < v.len()
        invariant
            0 <= i <= v.len(),
            forall|k: int| 0 <= k < i ==> path_parts(#[trigger] texts(v@)[k]) != path_parts(p@),
        decreases v.len() - i,
    {
        assert(texts(v@)[i as int] == v@[i as int]@);
        if same_path(v[i].as_str(), p) {
            return true;
        }
        i = i + 1;
    }
    false
}

fn add_listed(v: &mut Vec<String>, p: Option<String>)
    ensures
        texts(final(v)@) == listed(texts(old(v)@), opt_text(p)),
{
    let ghost before = texts(v@);
    if let Some(x) = p {
        if !is_listed(v.as_slice(), x.as_str()) {
            v.push(x);
            assert(texts(v@) =~= before.push(x@));
        }
    }
}

fn add_noted(v: &mut Vec<String>, w: Option<String>)
    ensures
        texts(final(v)@) == noted(texts(old(v)@), opt_text(w)),
{
    let ghost before = texts(v@);
    if let Some(x) = w {
        v.push(x);
        assert(texts(v@) =~= before.push(x@));
    }
}

impl SandboxCfg {
    /// The writable half: the directories that are granted, how far the file
    /// tools follow them, and the warnings. `probes` holds what the file system
    /// said of each entry that [`writable_precheck`] let pass; `reals` are the
    /// [`risky_roots`] with links resolved.
    pub fn resolve_with_home(
        &self,
        own: &OwnDirs,
        home: Option<&str>,
        probes: &[Option<DirProbe>],
        reals: &[String],
    ) -> (r: (Vec<String>, FileToolsMode, Vec<String>))
        requires
            probes@.len() == self.writable@.len(),
            forall|i: int|
                0 <= i < probes@.len() && writable_objection(
                    self.writable@[i]@,
                    own@,
                    opt_str(home),
                ) is None ==> #[trigger] probes@[i] is Some,
        ensures
            texts(r.0@) == granted_upto(
                texts(self.writable@),
                dir_probes(probes@),
                own@,
                opt_str(home),
                texts(reals@),
                self.writable@.len(),
            ),
            r.1 == file_tools_of(opt_text(self.file_tools)),
            texts(r.2@) == writable_warnings(
                texts(self.writable@),
                dir_probes(probes@),
                own@,
                opt_str(home),
                texts(reals@),
                self.writable@.len(),
            ) + file_tools_warnings(opt_text(self.file_tools), r.0@.len()),
    {
        let ghost entries = texts(self.writable@);
        let ghost pv = dir_probes(probes@);
        let ghost rv = texts(reals@);
        let ghost hv = opt_str(home);
        let mut granted: Vec<String> = Vec::new();
        let mut warnings: Vec<String> = Vec::new();
        assert(texts(granted@) =~= Seq::empty());
        assert(texts(warnings@) =~= Seq::empty());
        let mut i: usize = 0;
        while i < self.writable.len()
            invariant
                0 <= i <= self.writable.len(),
                probes@.len() == self.writable@.len(),
                entries == texts(self.writable@),
                pv == dir_probes(probes@),
                rv == texts(reals@),
                hv == opt_str(home),
                texts(granted@) == granted_upto(entries, pv, own@, hv, rv, i as nat),
                texts(warnings@) == writable_warnings(entries, pv, own@, hv, rv, i as nat),
            decreases self.writable.len() - i,
        {
            assert(entries[i as int] == self.writable@[i as int]@);
            let (path, warning) = settle_writable(
                self.writable[i].as_str(),
                &probes[i],
                own,
                home,
                reals,
            );
            add_listed(&mut granted, path);
            add_noted(&mut warnings, warning);
            i = i + 1;
        }
        let ghost base = texts(warnings@);
        assert(base + Seq::<Seq<char>>::empty() =~= base);
        let mode = match &self.file_tools {
            None => FileToolsMode::Workspace,
            Some(w) => {
                proof {
                    reveal_strlit("workspace");
                    reveal_strlit("writable");
                    assert("workspace"@.len() != "writable"@.len());
                }
                if same(w.as_str(), "workspace") {
                    FileToolsMode::Workspace
                } else if same(w.as_str(), "writable") {
                    if granted.len() == 0 {
                        warnings.push(
                            "[sandbox].file_tools = \"writable\" has no effect: `writable` is empty (or every entry was refused)".to_owned(),
                        );
                        assert(texts(warnings@) =~= base + file_tools_warnings(Some(w@), 0));
                    }
                    FileToolsMode::Writable
                } else {
                    let s = labelled(
                        "config.toml [sandbox].file_tools = \"",
                        w.as_str(),
                        "\" is not a mode (workspace | writable) — failing closed to \"workspace\"",
                    );
                    warnings.push(s);
                    assert(texts(warnings@) =~= base + file_tools_warnings(
                        Some(w@),
                        granted@.len(),
                    ));
                    FileToolsMode::Workspace
                }
            },
        };
        (granted, mode, warnings)
    }
}

/// The head of every message about a readable entry.
pub open spec fn readable_label(entry: Seq<char>) -> Seq<char> {
    "[sandbox].readable `"@ + entry
}

/// The refusal of a readable entry that would expose hotl's own directories.
pub open spec fn readable_refusal_of(entry: Seq<char>) -> Seq<char> {
    readable_label(entry)
        + "` would expose hotl's own config/state (allow-rules, hooks, the session token) to sandboxed commands — entry refused"@
}

/// The refusal of a readable entry that would expose hotl's own directories.
pub fn readable_refusal(entry: &str) -> (r: String)
    ensures
        r@ == readable_refusal_of(entry@),
{
    labelled(
        "[sandbox].readable `",
        entry,
        "` would expose hotl's own config/state (allow-rules, hooks, the session token) to sandboxed commands — entry refused",
    )
}

/// Why a readable entry is turned away before the file system is asked, if it is.
pub open spec fn readable_objection(
    entry: Seq<char>,
    own: OwnDirsV,
    home: Option<Seq<char>>,
) -> Option<Seq<char>> {
    let p = home_expanded(entry, home);
    if !is_rooted(p) {
        Some(readable_label(entry) + "` is not an absolute path — entry ignored"@)
    } else if overlap(p, own.config) || overlap(p, own.data) {
        Some(readable_refusal_of(entry))
    } else {
        None
    }
}

/// What a readable entry comes to: the path that is lifted, if any, and the
/// warning, if any. Nothing is ever created for it.
pub open spec fn readable_outcome(
    entry: Seq<char>,
    probe: Option<ReadProbeV>,
    own: OwnDirsV,
    home: Option<Seq<char>>,
    reals: Seq<Seq<char>>,
) -> (Option<Seq<char>>, Option<Seq<char>>) {
    match readable_objection(entry, own, home) {
        Some(w) => (None, Some(w)),
        None => match probe {
            None => (None, None),
            Some(ReadProbeV::Missing) => (
                None,
                Some(
                    readable_label(entry)
                        + "` does not exist — entry ignored (nothing there is denied, so lifting it is a no-op)"@,
                ),
            ),
            Some(ReadProbeV::Unresolved(e)) => (
                None,
                Some(readable_label(entry) + "` cannot be resolved: "@ + e + " — entry ignored"@),
            ),
            Some(ReadProbeV::Resolved(p)) => if touches_own(p, own) {
                (None, Some(readable_refusal_of(entry)))
            } else {
                (
                    Some(p),
                    match risky_from(p, reals, 0) {
                        Some(root) => Some(
                            readable_label(entry) + "` lifts the read-deny under the system root "@
                                + root
                                + " — honored, but nothing there is carved out for sandboxed commands"@,
                        ),
                        None => None,
                    },
                )
            },
        },
    }
}

/// The paths that the first `n` readable entries lift.
pub open spec fn lifted_upto(
    entries: Seq<Seq<char>>,
    probes: Seq<Option<ReadProbeV>>,
    own: OwnDirsV,
    home: Option<Seq<char>>,
    reals: Seq<Seq<char>>,
    n: nat,
) -> Seq<Seq<char>>
    decreases n,
{
    if n == 0 {
        Seq::empty()
    } else {
        listed(
            lifted_upto(entries, probes, own, home, reals, (n - 1) as nat),
            readable_outcome(entries[n - 1], probes[n - 1], own, home, reals).0,
        )
    }
}

/// The warnings about the first `n` readable entries.
pub open spec fn readable_warnings(
    entries: Seq<Seq<char>>,
    probes: Seq<Option<ReadProbeV>>,
    own: OwnDirsV,
    home: Option<Seq<char>>,
    reals: Seq<Seq<char>>,
    n: nat,
) -> Seq<Seq<char>>
    decreases n,
{
    if n == 0 {
        Seq::empty()
    } else {
        noted(
            readable_warnings(entries, probes, own, home, reals, (n - 1) as nat),
            readable_outcome(entries[n - 1], probes[n - 1], own, home, reals).1,
        )
    }
}

/// Looks at a readable entry before the file system is asked: the expanded
/// path to probe, or the warning that turns it away.
pub fn readable_precheck(entry: &str, own: &OwnDirs, home: Option<&str>) -> (r: Result<
    String,
    String,
>)
    ensures
        match r {
            Ok(p) => readable_objection(entry@, own@, opt_str(home)) is None && p@ == home_expanded(
                entry@,
                opt_str(home),
            ),
            Err(w) => readable_objection(entry@, own@, opt_str(home)) == Some(w@),
        },
{
    let p = expand_home(entry, home);
    if !is_absolute(p.as_str()) {
        return Err(
            labelled("[sandbox].readable `", entry, "` is not an absolute path — entry ignored"),
        );
    }
    if overlaps(p.as_str(), own.config.as_str()) || overlaps(p.as_str(), own.data.as_str()) {
        return Err(readable_refusal(entry));
    }
    Ok(p)
}

fn settle_readable(
    entry: &str,
    probe: &Option<ReadProbe>,
    own: &OwnDirs,
    home: Option<&str>,
    reals: &[String],
) -> (r: (Option<String>, Option<String>))
    ensures
        (opt_text(r.0), opt_text(r.1)) == readable_outcome(
            entry@,
            (match *probe {
                Some(p) => Some(p@),
                None => None,
            }),
            own@,
            opt_str(home),
            texts(reals@),
        ),
{
    match readable_precheck(entry, own, home) {
        Err(w) => {
            return (None, Some(w));
        },
        Ok(_) => {},
    }
    match probe {
        None => (None, None),
        Some(ReadProbe::Missing) => {
            let w = labelled(
                "[sandbox].readable `",
                entry,
                "` does not exist — entry ignored (nothing there is denied, so lifting it is a no-op)",
            );
            (None, Some(w))
        },
        Some(ReadProbe::Unresolved(e)) => {
            let mut w = labelled("[sandbox].readable `", entry, "` cannot be resolved: ");
            w.append(e.as_str());
            w.append(" — entry ignored");
            (None, Some(w))
        },
        Some(ReadProbe::Resolved(p)) => {
            if touches(p.as_str(), own) {
                (None, Some(readable_refusal(entry)))
            } else {
                match risky_root(p.as_str(), reals) {
                    Some(root) => {
                        let mut w = labelled(
                            "[sandbox].readable `",
                            entry,
                            "` lifts the read-deny under the system root ",
                        );
                        w.append(root.as_str());
                        w.append(
                            " — honored, but nothing there is carved out for sandboxed commands",
                        );
                        (Some(p.clone()), Some(w))
                    },
                    None => (Some(p.clone()), None),
                }
            }
        },
    }
}

/// The first of `roots`, from number `i` on, that `p` lies in.
pub open spec fn holder(p: Seq<char>, roots: Seq<Seq<char>>, i: int) -> Option<Seq<char>>
    decreases roots.len() - i,
{
    if i < 0 || i >= roots.len() {
        None
    } else if within(p, roots[i]) {
        Some(roots[i])
    } else {
        holder(p, roots, i + 1)
    }
}

fn find_holder(p: &str, roots: &[String]) -> (r: Option<String>)
    ensures
        opt_text(r) == holder(p@, texts(roots@), 0),
{
    let mut i: usize = 0;
    while i < roots.len()
        invariant
            0 <= i <= roots.len(),
            holder(p@, texts(roots@), 0) == holder(p@, texts(roots@), i as int),
        decreases roots.len() - i,
    {
        assert(texts(roots@)[i as int] == roots@[i as int]@);
        if starts_with(p, roots[i].as_str()) {
            return Some(roots[i].clone());
        }
        i = i + 1;
    }
    None
}

/// Whether `p` overlaps one of `v`.
pub open spec fn overlaps_any(p: Seq<char>, v: Seq<Seq<char>>) -> bool {
    exists|k: int| 0 <= k < v.len() && overlap(p, #[trigger] v[k])
}

fn meets_any(p: &str, v: &[String]) -> (r: bool)
    ensures
        r == overlaps_any(p@, texts(v@)),
{
    let mut i: usize = 0;
    while i < v.len()
        invariant
            0 <= i <= v.len(),
            forall|k: int| 0 <= k < i ==> !overlap(p@, #[trigger] texts(v@)[k]),
        decreases v.len() - i,
    {
        assert(texts(v@)[i as int] == v@[i as int]@);
        if overlaps(p, v[i].as_str()) {
            return true;
        }
        i = i + 1;
    }
    false
}

/// The warning for a denial that a write grant takes back.
pub open spec fn cannot_deny(p: Seq<char>, root: Seq<char>) -> Seq<char> {
    "[sandbox] cannot deny reads of "@ + p + " — it sits inside the writable root "@ + root
        + " and the kernel resolves the closest rule, which grants read there"@
}

/// What the credential path `p` comes to: denied or not, and the warning.
pub open spec fn secret_outcome(
    p: Seq<char>,
    lifted: Seq<Seq<char>>,
    granted: Seq<Seq<char>>,
) -> (bool, Option<Seq<char>>) {
    if overlaps_any(p, lifted) {
        (false, None)
    } else {
        match holder(p, granted, 0) {
            Some(root) => (false, Some(cannot_deny(p, root))),
            None => (true, None),
        }
    }
}

/// The credential paths among the first `n` that are denied.
pub open spec fn secrets_upto(
    paths: Seq<Seq<char>>,
    lifted: Seq<Seq<char>>,
    granted: Seq<Seq<char>>,
    n: nat,
) -> Seq<Seq<char>>
    decreases n,
{
    if n == 0 {
        Seq::empty()
    } else {
        let before = secrets_upto(paths, lifted, granted, (n - 1) as nat);
        if secret_outcome(paths[n - 1], lifted, granted).0 {
            before.push(paths[n - 1])
        } else {
            before
        }
    }
}

/// The warnings about the first `n` credential paths.
pub open spec fn secret_warnings(
    paths: Seq<Seq<char>>,
    lifted: Seq<Seq<char>>,
    granted: Seq<Seq<char>>,
    n: nat,
) -> Seq<Seq<char>>
    decreases n,
{
    if n == 0 {
        Seq::empty()
    } else {
        noted(
            secret_warnings(paths, lifted, granted, (n - 1) as nat),
            secret_outcome(paths[n - 1], lifted, granted).1,
        )
    }
}

/// What a projected rule comes to: the path that is denied, if any, and the
/// warning, if any.
pub open spec fn rule_outcome(
    rule: (Seq<char>, Seq<char>),
    own: OwnDirsV,
    granted: Seq<Seq<char>>,
    reals: Seq<Seq<char>>,
) -> (Option<Seq<char>>, Option<Seq<char>>) {
    if touches_own(rule.0, own) {
        (
            None,
            Some(
                rule.1
                    + " is already denied as one of hotl's own dirs — the rule is honored, the duplicate entry dropped"@,
            ),
        )
    } else {
        match holder(rule.0, granted, 0) {
            Some(root) => (None, Some(cannot_deny(rule.0, root))),
            None => (
                Some(rule.0),
                match risky_from(rule.0, reals, 0) {
                    Some(root) => Some(
                        rule.1 + " denies reads under the system root "@ + root
                            + " to sandboxed commands — honored, but commands that need what lives there will fail"@,
                    ),
                    None => None,
                },
            ),
        }
    }
}

/// The paths that the first `n` projected rules deny, without those that are
/// denied as secrets already.
pub open spec fn ruled_upto(
    rules: Seq<(Seq<char>, Seq<char>)>,
    own: OwnDirsV,
    granted: Seq<Seq<char>>,
    reals: Seq<Seq<char>>,
    secrets: Seq<Seq<char>>,
    n: nat,
) -> Seq<Seq<char>>
    decreases n,
{
    if n == 0 {
        Seq::empty()
    } else {
        let before = ruled_upto(rules, own, granted, reals, secrets, (n - 1) as nat);
        match rule_outcome(rules[n - 1], own, granted, reals).0 {
            Some(p) => if lists(secrets, p) {
                before
            } else {
                listed(before, Some(p))
            },
            None => before,
        }
    }
}

/// The warnings about the first `n` projected rules.
pub open spec fn rule_warnings(
    rules: Seq<(Seq<char>, Seq<char>)>,
    own: OwnDirsV,
    granted: Seq<Seq<char>>,
    reals: Seq<Seq<char>>,
    n: nat,
) -> Seq<Seq<char>>
    decreases n,
{
    if n == 0 {
        Seq::empty()
    } else {
        noted(
            rule_warnings(rules, own, granted, reals, (n - 1) as nat),
            rule_outcome(rules[n - 1], own, granted, reals).1,
        )
    }
}

fn cannot_deny_text(p: &str, root: &str) -> (r: String)
    ensures
        r@ == cannot_deny(p@, root@),
{
    let mut w = labelled(
        "[sandbox] cannot deny reads of ",
        p,
        " — it sits inside the writable root ",
    );
    w.append(root);
    w.append(" and the kernel resolves the closest rule, which grants read there");
    w
}

fn settle_rule(rule: &ProjectedRule, own: &OwnDirs, granted: &[String], reals: &[String]) -> (r: (
    Option<String>,
    Option<String>,
))
    ensures
        (opt_text(r.0), opt_text(r.1)) == rule_outcome(
            (rule.path@, rule.rule@),
            own@,
            texts(granted@),
            texts(reals@),
        ),
{
    let p = rule.path.as_str();
    if touches(p, own) {
        let mut w = rule.rule.clone();
        w.append(
            " is already denied as one of hotl's own dirs — the rule is honored, the duplicate entry dropped",
        );
        return (None, Some(w));
    }
    if let Some(root) = find_holder(p, granted) {
        return (None, Some(cannot_deny_text(p, root.as_str())));
    }
    match risky_root(p, reals) {
        Some(root) => {
            let mut w = rule.rule.clone();
            w.append(" denies reads under the system root ");
            w.append(root.as_str());
            w.append(
                " to sandboxed commands — honored, but commands that need what lives there will fail",
            );
            (Some(p.to_owned()), Some(w))
        },
        None => (Some(p.to_owned()), None),
    }
}

impl SandboxCfg {
    /// The three tiers of the read-deny, and the warnings.
    ///
    /// The first tier is hotl's own directories: a confined child that could
    /// read the session token would have left the permission gate behind. The
    /// second is the credential class without what `readable` lifts. The third
    /// is what the owner's deny rules imply. `granted` are the write roots;
    /// `credentials` and the paths of `rules` come with links resolved.
    pub fn resolve_read_deny(
        &self,
        own: &OwnDirs,
        home: Option<&str>,
        probes: &[Option<ReadProbe>],
        reals: &[String],
        granted: &[String],
        credentials: &[String],
        rules: &[ProjectedRule],
    ) -> (r: (ReadDeny, Vec<String>))
        requires
            probes@.len() == self.readable@.len(),
            forall|i: int|
                0 <= i < probes@.len() && readable_objection(
                    self.readable@[i]@,
                    own@,
                    opt_str(home),
                ) is None ==> #[trigger] probes@[i] is Some,
        ensures
            ({
                let lifted = lifted_upto(
                    texts(self.readable@),
                    read_probes(probes@),
                    own@,
                    opt_str(home),
                    texts(reals@),
                    self.readable@.len(),
                );
                let secrets = secrets_upto(
                    texts(credentials@),
                    lifted,
                    texts(granted@),
                    credentials@.len(),
                );
                &&& texts(r.0.always@) == seq![own@.config_real, own@.data_real]
                &&& texts(r.0.secrets@) == secrets
                &&& texts(r.0.rules@) == ruled_upto(
                    projections(rules@),
                    own@,
                    texts(granted@),
                    texts(reals@),
                    secrets,
                    rules@.len(),
                )
                &&& texts(r.1@) == readable_warnings(
                    texts(self.readable@),
                    read_probes(probes@),
                    own@,
                    opt_str(home),
                    texts(reals@),
                    self.readable@.len(),
                ) + secret_warnings(texts(credentials@), lifted, texts(granted@), credentials@.len())
                    + rule_warnings(
                    projections(rules@),
                    own@,
                    texts(granted@),
                    texts(reals@),
                    rules@.len(),
                )
            }),
            forall|i: int|
                0 <= i < rules@.len() && !overlap(
                    (#[trigger] projections(rules@)[i]).0,
                    own@.config_real,
                ) && !overlap(projections(rules@)[i].0, own@.data_real) && (forall|g: int|
                    0 <= g < granted@.len() ==> !within(
                        projections(rules@)[i].0,
                        #[trigger] texts(granted@)[g],
                    )) ==> lists(texts(r.0.rules@), projections(rules@)[i].0) || lists(
                    texts(r.0.secrets@),
                    projections(rules@)[i].0,
                ),
    {
        let ghost entries = texts(self.readable@);
        let ghost pv = read_probes(probes@);
        let ghost rv = texts(reals@);
        let ghost gv = texts(granted@);
        let ghost hv = opt_str(home);
        let mut lifted: Vec<String> = Vec::new();
        let mut warnings: Vec<String> = Vec::new();
        assert(texts(lifted@) =~= Seq::empty());
        assert(texts(warnings@) =~= Seq::empty());
        let mut i: usize = 0;
        while i < self.readable.len()
            invariant
                0 <= i <= self.readable.len(),
                probes@.len() == self.readable@.len(),
                entries == texts(self.readable@),
                pv == read_probes(probes@),
                rv == texts(reals@),
                hv == opt_str(home),
                texts(lifted@) == lifted_upto(entries, pv, own@, hv, rv, i as nat),
                texts(warnings@) == readable_warnings(entries, pv, own@, hv, rv, i as nat),
            decreases self.readable.len() - i,
        {
            assert(entries[i as int] == self.readable@[i as int]@);
            let (path, warning) = settle_readable(
                self.readable[i].as_str(),
                &probes[i],
                own,
                home,
                reals,
            );
            add_listed(&mut lifted, path);
            add_noted(&mut warnings, warning);
            i = i + 1;
        }
        let ghost lv = texts(lifted@);
        let mut always: Vec<String> = Vec::new();
        always.push(own.config_real.clone());
        always.push(own.data_real.clone());
        assert(texts(always@) =~= seq![own@.config_real, own@.data_real]);
        let ghost base = texts(warnings@);
        let ghost cv = texts(credentials@);
        let mut secrets: Vec<String> = Vec::new();
        assert(texts(secrets@) =~= Seq::empty());
        let mut j: usize = 0;
        assert(base + Seq::<Seq<char>>::empty() =~= base);
        while j < credentials.len()
            invariant
                0 <= j <= credentials.len(),
                cv == texts(credentials@),
                lv == texts(lifted@),
                gv == texts(granted@),
                texts(secrets@) == secrets_upto(cv, lv, gv, j as nat),
                texts(warnings@) == base + secret_warnings(cv, lv, gv, j as nat),
            decreases credentials.len() - j,
        {
            let p = credentials[j].as_str();
            assert(cv[j as int] == p@);
            let ghost before = texts(warnings@);
            if !meets_any(p, lifted.as_slice()) {
                match find_holder(p, granted) {
                    Some(root) => {
                        add_noted(
                            &mut warnings,
                            Some(cannot_deny_text(p, root.as_str())),
                        );
                        assert(texts(warnings@) =~= base + secret_warnings(
                            cv,
                            lv,
                            gv,
                            (j + 1) as nat,
                        ));
                    },
                    None => {
                        let ghost s = texts(secrets@);
                        secrets.push(p.to_owned());
                        assert(texts(secrets@) =~= s.push(p@));
                    },
                }
            }
            j = j + 1;
        }
        let ghost sv = texts(secrets@);
        let ghost base2 = texts(warnings@);
        let ghost dv = projections(rules@);
        let mut ruled: Vec<String> = Vec::new();
        assert(texts(ruled@) =~= Seq::empty());
        let mut k: usize = 0;
        assert(base2 + Seq::<Seq<char>>::empty() =~= base2);
        while k < rules.len()
            invariant
                0 <= k <= rules.len(),
                dv == projections(rules@),
                rv == texts(reals@),
                gv == texts(granted@),
                sv == texts(secrets@),
                texts(ruled@) == ruled_upto(dv, own@, gv, rv, sv, k as nat),
                texts(warnings@) == base2 + rule_warnings(dv, own@, gv, rv, k as nat),
            decreases rules.len() - k,
        {
            assert(dv[k as int] == (rules@[k as int].path@, rules@[k as int].rule@));
            let (path, warning) = settle_rule(&rules[k], own, granted, reals);
            if let Some(p) = path {
                if !is_listed(secrets.as_slice(), p.as_str()) {
                    add_listed(&mut ruled, Some(p));
                }
            }
            let ghost before = texts(warnings@);
            add_noted(&mut warnings, warning);
            assert(texts(warnings@) =~= base2 + rule_warnings(dv, own@, gv, rv, (k + 1) as nat));
            k = k + 1;
        }
        proof {
            assert forall|i: int|
                0 <= i < rules@.len() && !overlap((#[trigger] dv[i]).0, own@.config_real)
                    && !overlap(dv[i].0, own@.data_real) && (forall|g: int|
                    0 <= g < granted@.len() ==> !within(dv[i].0, #[trigger] gv[g])) implies lists(
                texts(ruled@),
                dv[i].0,
            ) || lists(sv, dv[i].0) by {
                every_deny_rule_is_enforced(dv, own@, gv, rv, sv, rules@.len(), i);
            }
        }
        (ReadDeny { always, secrets, rules: ruled }, warnings)
    }
}

/// No granted directory touches hotl's own: whatever an entry says, and
/// wherever its links lead, a sandboxed command cannot write there.
pub proof fn grants_spare_own_dirs(
    entries: Seq<Seq<char>>,
    probes: Seq<Option<DirProbeV>>,
    own: OwnDirsV,
    home: Option<Seq<char>>,
    reals: Seq<Seq<char>>,
    n: nat,
)
    ensures
        forall|k: int|
            0 <= k < granted_upto(entries, probes, own, home, reals, n).len() ==> !touches_own(
                #[trigger] granted_upto(entries, probes, own, home, reals, n)[k],
                own,
            ),
    decreases n,
{
    if n > 0 {
        grants_spare_own_dirs(entries, probes, own, home, reals, (n - 1) as nat);
        let before = granted_upto(entries, probes, own, home, reals, (n - 1) as nat);
        let after = granted_upto(entries, probes, own, home, reals, n);
        assert forall|k: int| 0 <= k < after.len() implies !touches_own(
            #[trigger] after[k],
            own,
        ) by {
            if k < before.len() {
                assert(after[k] == before[k]);
            }
        }
    }
}

/// An entry above hotl's own directories is refused, and nothing is created
/// for it; this is what makes the root and the home directory impossible to
/// list.
pub proof fn ancestors_are_refused(entry: Seq<char>, own: OwnDirsV, home: Option<Seq<char>>)
    requires
        is_rooted(home_expanded(entry, home)),
        within(own.config, home_expanded(entry, home)) || within(
            own.data,
            home_expanded(entry, home),
        ),
    ensures
        writable_objection(entry, own, home) == Some(writable_refusal(entry)),
        readable_objection(entry, own, home) == Some(readable_refusal_of(entry)),
{
}

/// No lifted path touches hotl's own directories.
pub proof fn lifts_spare_own_dirs(
    entries: Seq<Seq<char>>,
    probes: Seq<Option<ReadProbeV>>,
    own: OwnDirsV,
    home: Option<Seq<char>>,
    reals: Seq<Seq<char>>,
    n: nat,
)
    ensures
        forall|k: int|
            0 <= k < lifted_upto(entries, probes, own, home, reals, n).len() ==> !touches_own(
                #[trigger] lifted_upto(entries, probes, own, home, reals, n)[k],
                own,
            ),
    decreases n,
{
    if n > 0 {
        lifts_spare_own_dirs(entries, probes, own, home, reals, (n - 1) as nat);
        let before = lifted_upto(entries, probes, own, home, reals, (n - 1) as nat);
        let after = lifted_upto(entries, probes, own, home, reals, n);
        assert forall|k: int| 0 <= k < after.len() implies !touches_own(
            #[trigger] after[k],
            own,
        ) by {
            if k < before.len() {
                assert(after[k] == before[k]);
            }
        }
    }
}

proof fn holder_is_first(p: Seq<char>, roots: Seq<Seq<char>>, i: int)
    requires
        0 <= i,
    ensures
        holder(p, roots, i) is None ==> forall|k: int|
            i <= k < roots.len() ==> !within(p, #[trigger] roots[k]),
    decreases roots.len() - i,
{
    if i < roots.len() && !within(p, roots[i]) {
        holder_is_first(p, roots, i + 1);
    }
}

/// A denied secret lies in no write root, where the denial would not hold, and
/// overlaps nothing that the operator lifted.
pub proof fn secrets_are_deniable(
    paths: Seq<Seq<char>>,
    lifted: Seq<Seq<char>>,
    granted: Seq<Seq<char>>,
    n: nat,
)
    requires
        n <= paths.len(),
    ensures
        forall|k: int|
            0 <= k < secrets_upto(paths, lifted, granted, n).len() ==> {
                let p = #[trigger] secrets_upto(paths, lifted, granted, n)[k];
                &&& paths.contains(p)
                &&& !overlaps_any(p, lifted)
                &&& forall|g: int| 0 <= g < granted.len() ==> !within(p, #[trigger] granted[g])
            },
    decreases n,
{
    if n > 0 {
        secrets_are_deniable(paths, lifted, granted, (n - 1) as nat);
        let before = secrets_upto(paths, lifted, granted, (n - 1) as nat);
        let after = secrets_upto(paths, lifted, granted, n);
        let q = paths[n - 1];
        holder_is_first(q, granted, 0);
        assert forall|k: int| 0 <= k < after.len() implies {
            let p = #[trigger] after[k];
            &&& paths.contains(p)
            &&& !overlaps_any(p, lifted)
            &&& forall|g: int| 0 <= g < granted.len() ==> !within(p, #[trigger] granted[g])
        } by {
            if k < before.len() {
                assert(after[k] == before[k]);
            }
        }
    }
}

/// The run directory and the token file lie under the data directory, so that
/// denying the data directory covers them.
pub proof fn denying_data_covers_the_token(data: Seq<char>, sub: Seq<char>, file: Seq<char>)
    requires
        data.len() > 0,
        !is_rooted(sub),
        !is_rooted(file),
    ensures
        within(crate::paths::joined_path(crate::paths::joined_path(data, sub), file), data),
{
    let run = crate::paths::joined_path(data, sub);
    crate::paths::joined_lies_within(data, sub);
    crate::paths::joined_lies_within(run, file);
    crate::paths::within_is_transitive(crate::paths::joined_path(run, file), run, data);
}

proof fn listed_lists(v: Seq<Seq<char>>, x: Option<Seq<char>>, p: Seq<char>)
    ensures
        lists(v, p) ==> lists(listed(v, x), p),
        x == Some(p) ==> lists(listed(v, x), p),
        forall|k: int|
            0 <= k < listed(v, x).len() ==> v.contains(#[trigger] listed(v, x)[k]) || x == Some(
                listed(v, x)[k],
            ),
{
    let w = listed(v, x);
    if lists(v, p) {
        let k = choose|k: int| 0 <= k < v.len() && path_parts(#[trigger] v[k]) == path_parts(p);
        assert(path_parts(w[k]) == path_parts(p));
    }
    if x == Some(p) && !lists(v, p) {
        assert(w[w.len() - 1] == p);
    }
}

proof fn no_holder(p: Seq<char>, roots: Seq<Seq<char>>, i: int)
    requires
        0 <= i,
        forall|k: int| 0 <= k < roots.len() ==> !within(p, #[trigger] roots[k]),
    ensures
        holder(p, roots, i) is None,
    decreases roots.len() - i,
{
    if i < roots.len() {
        no_holder(p, roots, i + 1);
    }
}

/// Every deny rule is enforced: the path of a rule that touches neither of
/// hotl's own directories and lies in no write root is among the denied rules or
/// the denied secrets.
pub proof fn every_deny_rule_is_enforced(
    rules: Seq<(Seq<char>, Seq<char>)>,
    own: OwnDirsV,
    granted: Seq<Seq<char>>,
    reals: Seq<Seq<char>>,
    secrets: Seq<Seq<char>>,
    n: nat,
    i: int,
)
    requires
        0 <= i < n <= rules.len(),
        !overlap(rules[i].0, own.config_real),
        !overlap(rules[i].0, own.data_real),
        forall|g: int| 0 <= g < granted.len() ==> !within(rules[i].0, #[trigger] granted[g]),
    ensures
        (exists|k: int|
            0 <= k < secrets.len() && path_parts(#[trigger] secrets[k]) == path_parts(rules[i].0))
            || ({
            let denied = ruled_upto(rules, own, granted, reals, secrets, n);
            exists|k: int|
                0 <= k < denied.len() && path_parts(#[trigger] denied[k]) == path_parts(rules[i].0)
        }),
    decreases n,
{
    let p = rules[i].0;
    let before = ruled_upto(rules, own, granted, reals, secrets, (n - 1) as nat);
    let after = ruled_upto(rules, own, granted, reals, secrets, n);
    let x = rule_outcome(rules[n - 1], own, granted, reals).0;
    if i == n - 1 {
        no_holder(p, granted, 0);
        assert(x == Some(p));
        if !lists(secrets, p) {
            listed_lists(before, x, p);
            assert(lists(after, p));
        }
    } else {
        every_deny_rule_is_enforced(rules, own, granted, reals, secrets, (n - 1) as nat, i);
        if !lists(secrets, p) {
            assert(lists(before, p));
            listed_lists(before, x, p);
            assert(lists(after, p));
        }
    }
}

/// Nothing is denied by rule but what a rule names, and a rule that hotl's own
/// directories cover or that a write root takes back adds nothing.
pub proof fn denied_rules_come_from_rules(
    rules: Seq<(Seq<char>, Seq<char>)>,
    own: OwnDirsV,
    granted: Seq<Seq<char>>,
    reals: Seq<Seq<char>>,
    secrets: Seq<Seq<char>>,
    n: nat,
    k: int,
)
    requires
        n <= rules.len(),
        0 <= k < ruled_upto(rules, own, granted, reals, secrets, n).len(),
    ensures
        ({
            let p = ruled_upto(rules, own, granted, reals, secrets, n)[k];
            &&& exists|i: int| 0 <= i < n && (#[trigger] rules[i]).0 == p
            &&& !overlap(p, own.config_real)
            &&& !overlap(p, own.data_real)
            &&& forall|g: int| 0 <= g < granted.len() ==> !within(p, #[trigger] granted[g])
        }),
    decreases n,
{
    if n > 0 {
        let before = ruled_upto(rules, own, granted, reals, secrets, (n - 1) as nat);
        let after = ruled_upto(rules, own, granted, reals, secrets, n);
        if k < before.len() {
            assert(after[k] == before[k]);
            denied_rules_come_from_rules(rules, own, granted, reals, secrets, (n - 1) as nat, k);
            let i = choose|i: int| 0 <= i < n - 1 && (#[trigger] rules[i]).0 == before[k];
            assert(rules[i].0 == after[k]);
        } else {
            holder_is_first(rules[n - 1].0, granted, 0);
            assert(rules[n - 1].0 == after[k]);
        }
    }
}

/// Every credential path is denied that overlaps nothing lifted and lies in no
/// write root.
pub proof fn every_secret_is_denied(
    paths: Seq<Seq<char>>,
    lifted: Seq<Seq<char>>,
    granted: Seq<Seq<char>>,
    n: nat,
    i: int,
)
    requires
        0 <= i < n <= paths.len(),
        forall|k: int| 0 <= k < lifted.len() ==> !overlap(paths[i], #[trigger] lifted[k]),
        forall|g: int| 0 <= g < granted.len() ==> !within(paths[i], #[trigger] granted[g]),
    ensures
        secrets_upto(paths, lifted, granted, n).contains(paths[i]),
    decreases n,
{
    let before = secrets_upto(paths, lifted, granted, (n - 1) as nat);
    let after = secrets_upto(paths, lifted, granted, n);
    if i == n - 1 {
        no_holder(paths[i], granted, 0);
        assert(after[after.len() - 1] == paths[i]);
    } else {
        every_secret_is_denied(paths, lifted, granted, (n - 1) as nat, i);
        let k = choose|k: int| 0 <= k < before.len() && before[k] == paths[i];
        assert(after[k] == paths[i]);
    }
}

/// Every directory that an entry names is granted, where the entry is absolute
/// and touches none of hotl's own directories, as written or with its links
/// resolved.
pub proof fn every_directory_is_granted(
    entries: Seq<Seq<char>>,
    probes: Seq<Option<DirProbeV>>,
    own: OwnDirsV,
    home: Option<Seq<char>>,
    reals: Seq<Seq<char>>,
    n: nat,
    i: int,
    p: Seq<char>,
)
    requires
        0 <= i < n <= entries.len(),
        probes[i] == Some(DirProbeV::Resolved(p, true)),
        is_rooted(home_expanded(entries[i], home)),
        !overlap(home_expanded(entries[i], home), own.config),
        !overlap(home_expanded(entries[i], home), own.data),
        !overlap(home_expanded(entries[i], home), own.config_real),
        !overlap(home_expanded(entries[i], home), own.data_real),
        !overlap(p, own.config_real),
        !overlap(p, own.data_real),
    ensures
        exists|k: int|
            0 <= k < granted_upto(entries, probes, own, home, reals, n).len() && path_parts(
                #[trigger] granted_upto(entries, probes, own, home, reals, n)[k],
            ) == path_parts(p),
    decreases n,
{
    let before = granted_upto(entries, probes, own, home, reals, (n - 1) as nat);
    let x = writable_outcome(entries[n - 1], probes[n - 1], own, home, reals).0;
    if i < n - 1 {
        every_directory_is_granted(entries, probes, own, home, reals, (n - 1) as nat, i, p);
        assert(lists(before, p));
    } else {
        assert(x == Some(p));
    }
    listed_lists(before, x, p);
    assert(lists(granted_upto(entries, probes, own, home, reals, n), p));
}

/// Nothing is granted but an existing directory that an absolute entry names.
pub proof fn grants_come_from_entries(
    entries: Seq<Seq<char>>,
    probes: Seq<Option<DirProbeV>>,
    own: OwnDirsV,
    home: Option<Seq<char>>,
    reals: Seq<Seq<char>>,
    n: nat,
    k: int,
)
    requires
        0 <= k < granted_upto(entries, probes, own, home, reals, n).len(),
    ensures
        exists|i: int|
            0 <= i < n && #[trigger] probes[i] == Some(
                DirProbeV::Resolved(granted_upto(entries, probes, own, home, reals, n)[k], true),
            ) && is_rooted(home_expanded(entries[i], home)),
    decreases n,
{
    if n > 0 {
        let before = granted_upto(entries, probes, own, home, reals, (n - 1) as nat);
        let after = granted_upto(entries, probes, own, home, reals, n);
        if k < before.len() {
            assert(after[k] == before[k]);
            grants_come_from_entries(entries, probes, own, home, reals, (n - 1) as nat, k);
            let i = choose|i: int|
                0 <= i < n - 1 && #[trigger] probes[i] == Some(
                    DirProbeV::Resolved(before[k], true),
                ) && is_rooted(home_expanded(entries[i], home));
            assert(probes[i] == Some(DirProbeV::Resolved(after[k], true)));
        } else {
            assert(probes[n - 1] == Some(DirProbeV::Resolved(after[k], true)));
        }
    }
}

/// Every path that a readable entry names is lifted, where the entry is absolute
/// and touches none of hotl's own directories; a lifted path is one that an
/// absolute entry names.
pub proof fn every_readable_path_is_lifted(
    entries: Seq<Seq<char>>,
    probes: Seq<Option<ReadProbeV>>,
    own: OwnDirsV,
    home: Option<Seq<char>>,
    reals: Seq<Seq<char>>,
    n: nat,
    i: int,
    p: Seq<char>,
)
    requires
        0 <= i < n <= entries.len(),
        probes[i] == Some(ReadProbeV::Resolved(p)),
        is_rooted(home_expanded(entries[i], home)),
        !overlap(home_expanded(entries[i], home), own.config),
        !overlap(home_expanded(entries[i], home), own.data),
        !overlap(p, own.config_real),
        !overlap(p, own.data_real),
    ensures
        exists|k: int|
            0 <= k < lifted_upto(entries, probes, own, home, reals, n).len() && path_parts(
                #[trigger] lifted_upto(entries, probes, own, home, reals, n)[k],
            ) == path_parts(p),
    decreases n,
{
    let before = lifted_upto(entries, probes, own, home, reals, (n - 1) as nat);
    let x = readable_outcome(entries[n - 1], probes[n - 1], own, home, reals).0;
    if i < n - 1 {
        every_readable_path_is_lifted(entries, probes, own, home, reals, (n - 1) as nat, i, p);
        assert(lists(before, p));
    } else {
        assert(x == Some(p));
    }
    listed_lists(before, x, p);
    assert(lists(lifted_upto(entries, probes, own, home, reals, n), p));
}

/// Nothing is lifted but an existing path that an absolute entry names.
pub proof fn lifts_come_from_entries(
    entries: Seq<Seq<char>>,
    probes: Seq<Option<ReadProbeV>>,
    own: OwnDirsV,
    home: Option<Seq<char>>,
    reals: Seq<Seq<char>>,
    n: nat,
    k: int,
)
    requires
        0 <= k < lifted_upto(entries, probes, own, home, reals, n).len(),
    ensures
        exists|i: int|
            0 <= i < n && #[trigger] probes[i] == Some(
                ReadProbeV::Resolved(lifted_upto(entries, probes, own, home, reals, n)[k]),
            ) && is_rooted(home_expanded(entries[i], home)),
    decreases n,
{
    if n > 0 {
        let before = lifted_upto(entries, probes, own, home, reals, (n - 1) as nat);
        let after = lifted_upto(entries, probes, own, home, reals, n);
        if k < before.len() {
            assert(after[k] == before[k]);
            lifts_come_from_entries(entries, probes, own, home, reals, (n - 1) as nat, k);
            let i = choose|i: int|
                0 <= i < n - 1 && #[trigger] probes[i] == Some(ReadProbeV::Resolved(before[k]))
                    && is_rooted(home_expanded(entries[i], home));
            assert(probes[i] == Some(ReadProbeV::Resolved(after[k])));
        } else {
            assert(probes[n - 1] == Some(ReadProbeV::Resolved(after[k])));
        }
    }
}

/// A writable entry that is not granted is told of, by its own words: no entry is
/// dropped in silence.
pub proof fn refused_grants_are_told(
    entries: Seq<Seq<char>>,
    probes: Seq<Option<DirProbeV>>,
    own: OwnDirsV,
    home: Option<Seq<char>>,
    reals: Seq<Seq<char>>,
    n: nat,
    i: int,
)
    requires
        0 <= i < n <= entries.len(),
        probes[i] is None ==> writable_objection(entries[i], own, home) is Some,
        probes[i] matches Some(DirProbeV::Resolved(p, d)) ==> !d || overlap(p, own.config_real)
            || overlap(p, own.data_real),
    ensures
        exists|k: int|
            0 <= k < writable_warnings(entries, probes, own, home, reals, n).len() && (
            "[sandbox].writable `"@ + entries[i]).is_prefix_of(
                #[trigger] writable_warnings(entries, probes, own, home, reals, n)[k],
            ),
    decreases n,
{
    let before = writable_warnings(entries, probes, own, home, reals, (n - 1) as nat);
    let after = writable_warnings(entries, probes, own, home, reals, n);
    let head = "[sandbox].writable `"@ + entries[i];
    if i < n - 1 {
        refused_grants_are_told(entries, probes, own, home, reals, (n - 1) as nat, i);
        let k = choose|k: int| 0 <= k < before.len() && head.is_prefix_of(#[trigger] before[k]);
        assert(after[k] == before[k]);
    } else {
        let w = writable_outcome(entries[i], probes[i], own, home, reals).1;
        assert(after[after.len() - 1] == w->0);
        assert(head.is_prefix_of(w->0));
    }
}

/// A readable entry that lifts nothing is told of, by its own words.
pub proof fn refused_lifts_are_told(
    entries: Seq<Seq<char>>,
    probes: Seq<Option<ReadProbeV>>,
    own: OwnDirsV,
    home: Option<Seq<char>>,
    reals: Seq<Seq<char>>,
    n: nat,
    i: int,
)
    requires
        0 <= i < n <= entries.len(),
        probes[i] is None ==> readable_objection(entries[i], own, home) is Some,
        probes[i] matches Some(ReadProbeV::Resolved(p)) ==> overlap(p, own.config_real) || overlap(
            p,
            own.data_real,
        ),
    ensures
        exists|k: int|
            0 <= k < readable_warnings(entries, probes, own, home, reals, n).len() && (
            "[sandbox].readable `"@ + entries[i]).is_prefix_of(
                #[trigger] readable_warnings(entries, probes, own, home, reals, n)[k],
            ),
    decreases n,
{
    let before = readable_warnings(entries, probes, own, home, reals, (n - 1) as nat);
    let after = readable_warnings(entries, probes, own, home, reals, n);
    let head = "[sandbox].readable `"@ + entries[i];
    if i < n - 1 {
        refused_lifts_are_told(entries, probes, own, home, reals, (n - 1) as nat, i);
        let k = choose|k: int| 0 <= k < before.len() && head.is_prefix_of(#[trigger] before[k]);
        assert(after[k] == before[k]);
    } else {
        let w = readable_outcome(entries[i], probes[i], own, home, reals).1;
        assert(after[after.len() - 1] == w->0);
        assert(head.is_prefix_of(w->0));
    }
}

proof fn some_holder(p: Seq<char>, roots: Seq<Seq<char>>, i: int, g: int)
    requires
        0 <= i <= g < roots.len(),
        within(p, roots[g]),
    ensures
        holder(p, roots, i) is Some,
    decreases roots.len() - i,
{
    if !within(p, roots[i]) {
        some_holder(p, roots, i + 1, g);
    }
}

/// A credential path that a write root takes the denial of back is told of.
pub proof fn undeniable_secrets_are_told(
    paths: Seq<Seq<char>>,
    lifted: Seq<Seq<char>>,
    granted: Seq<Seq<char>>,
    n: nat,
    i: int,
    g: int,
)
    requires
        0 <= i < n <= paths.len(),
        0 <= g < granted.len(),
        within(paths[i], granted[g]),
        forall|k: int| 0 <= k < lifted.len() ==> !overlap(paths[i], #[trigger] lifted[k]),
    ensures
        exists|k: int|
            0 <= k < secret_warnings(paths, lifted, granted, n).len() && (
            "[sandbox] cannot deny reads of "@ + paths[i]).is_prefix_of(
                #[trigger] secret_warnings(paths, lifted, granted, n)[k],
            ),
    decreases n,
{
    let before = secret_warnings(paths, lifted, granted, (n - 1) as nat);
    let after = secret_warnings(paths, lifted, granted, n);
    let head = "[sandbox] cannot deny reads of "@ + paths[i];
    if i < n - 1 {
        undeniable_secrets_are_told(paths, lifted, granted, (n - 1) as nat, i, g);
        let k = choose|k: int| 0 <= k < before.len() && head.is_prefix_of(#[trigger] before[k]);
        assert(after[k] == before[k]);
    } else {
        some_holder(paths[i], granted, 0, g);
        let w = secret_outcome(paths[i], lifted, granted).1;
        assert(after[after.len() - 1] == w->0);
        assert(head.is_prefix_of(w->0));
    }
}

/// A deny rule that adds nothing is told of: one within hotl's own directories by
/// its words, one that a write root takes back by its path.
pub proof fn dropped_rules_are_told(
    rules: Seq<(Seq<char>, Seq<char>)>,
    own: OwnDirsV,
    granted: Seq<Seq<char>>,
    reals: Seq<Seq<char>>,
    n: nat,
    i: int,
)
    requires
        0 <= i < n <= rules.len(),
        overlap(rules[i].0, own.config_real) || overlap(rules[i].0, own.data_real) || exists|g: int|
            0 <= g < granted.len() && within(rules[i].0, #[trigger] granted[g]),
    ensures
        exists|k: int|
            0 <= k < rule_warnings(rules, own, granted, reals, n).len() && ((rules[i].1
                + " is already denied"@).is_prefix_of(
                #[trigger] rule_warnings(rules, own, granted, reals, n)[k],
            ) || ("[sandbox] cannot deny reads of "@ + rules[i].0).is_prefix_of(
                rule_warnings(rules, own, granted, reals, n)[k],
            )),
    decreases n,
{
    let before = rule_warnings(rules, own, granted, reals, (n - 1) as nat);
    let after = rule_warnings(rules, own, granted, reals, n);
    let a = rules[i].1 + " is already denied"@;
    let b = "[sandbox] cannot deny reads of "@ + rules[i].0;
    if i < n - 1 {
        dropped_rules_are_told(rules, own, granted, reals, (n - 1) as nat, i);
        let k = choose|k: int|
            0 <= k < before.len() && (a.is_prefix_of(#[trigger] before[k]) || b.is_prefix_of(
                before[k],
            ));
        assert(after[k] == before[k]);
    } else {
        let w = rule_outcome(rules[i], own, granted, reals).1;
        if touches_own(rules[i].0, own) {
            reveal_strlit(" is already denied");
            reveal_strlit(
                " is already denied as one of hotl's own dirs — the rule is honored, the duplicate entry dropped",
            );
            assert(after[after.len() - 1] == w->0);
            assert(a.is_prefix_of(w->0));
        } else {
            let g = choose|g: int| 0 <= g < granted.len() && within(rules[i].0, #[trigger] granted[g]);
            some_holder(rules[i].0, granted, 0, g);
            assert(after[after.len() - 1] == w->0);
            assert(b.is_prefix_of(w->0));
        }
    }
}

/// The file tools follow the grants only for the one word that says so.
pub proof fn file_tools_fail_closed(word: Option<Seq<char>>, granted: nat)
    ensures
        file_tools_of(word) == FileToolsMode::Writable <==> word == Some("writable"@),
        word is None || word == Some("workspace"@) ==> file_tools_warnings(word, granted).len()
            == 0,
        word is Some && word != Some("workspace"@) && word != Some("writable"@)
            ==> file_tools_warnings(word, granted).len() == 1,
        word == Some("writable"@) ==> (file_tools_warnings(word, granted).len() == 0 <==> granted
            > 0),
{
    reveal_strlit("workspace");
    reveal_strlit("writable");
    assert("workspace"@.len() != "writable"@.len());
}

/// A path is risky where it overlaps a system root, and is told by the first one that
/// it overlaps; elsewhere it is not.
pub proof fn system_roots_are_recognized(p: Seq<char>, reals: Seq<Seq<char>>)
    requires
        reals.len() <= risky_names().len(),
    ensures
        match risky_from(p, reals, 0) {
            Some(root) => exists|i: int|
                0 <= i < reals.len() && overlap(p, #[trigger] reals[i]) && root == risky_names()[i]
                    && forall|k: int| 0 <= k < i ==> !overlap(p, #[trigger] reals[k]),
            None => forall|k: int| 0 <= k < reals.len() ==> !overlap(p, #[trigger] reals[k]),
        },
{
    risky_search(p, reals, 0);
}

proof fn risky_search(p: Seq<char>, reals: Seq<Seq<char>>, from: int)
    requires
        0 <= from <= reals.len() <= risky_names().len(),
        forall|k: int| 0 <= k < from ==> !overlap(p, #[trigger] reals[k]),
    ensures
        match risky_from(p, reals, from) {
            Some(root) => exists|i: int|
                0 <= i < reals.len() && overlap(p, #[trigger] reals[i]) && root == risky_names()[i]
                    && forall|k: int| 0 <= k < i ==> !overlap(p, #[trigger] reals[k]),
            None => forall|k: int| 0 <= k < reals.len() ==> !overlap(p, #[trigger] reals[k]),
        },
    decreases reals.len() - from,
{
    if from < reals.len() {
        if overlap(p, reals[from]) {
            assert(risky_names()[from] == risky_from(p, reals, from)->0);
        } else {
            risky_search(p, reals, from + 1);
        }
    }
}

/// The system roots are where programs and their configuration live.
pub proof fn system_roots_are_these()
    ensures
        risky_names().len() == 10,
        risky_names().contains("/etc"@),
        risky_names().contains("/usr"@),
        risky_names().contains("/bin"@),
        risky_names().contains("/sbin"@),
        risky_names().contains("/lib"@),
        risky_names().contains("/boot"@),
        risky_names().contains("/opt"@),
        risky_names().contains("/System"@),
        risky_names().contains("/Library"@),
        risky_names().contains("/Applications"@),
{
    let v = risky_names();
    assert(v[0] == "/etc"@ && v[1] == "/usr"@ && v[2] == "/bin"@ && v[3] == "/sbin"@ && v[4]
        == "/lib"@);
    assert(v[5] == "/boot"@ && v[6] == "/opt"@ && v[7] == "/System"@ && v[8] == "/Library"@ && v[9]
        == "/Applications"@);
}

} // verus!
