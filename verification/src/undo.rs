//! `hotl undo`: what it finds, what it asks and what it reports.
use crate::text::{decimal, decimal_of, opt_text, same, texts, trim, trimmed};
use vstd::prelude::*;
use vstd::string::*;

verus! {

/// What the snapshots of the latest session come to.
#[derive(Debug)]
pub enum Snapshots {
    /// No session has any.
    Missing,
    /// The latest session's cannot be opened.
    Unreadable { session: String },
    /// The latest session has none from before a batch.
    NoneBefore { session: String },
    /// There is one to go back to.
    Found { work_tree: String, label: String, session: String },
}

/// Whether one of the first `n` arguments forces the undo.
pub open spec fn forces(args: Seq<Seq<char>>, n: nat) -> bool {
    exists|i: int| 0 <= i < n && (#[trigger] args[i] == "--force"@ || args[i] == "-f"@)
}

/// Whether the undo is not to be confirmed.
pub fn is_forced(args: &[String]) -> (r: bool)
    ensures
        r == forces(texts(args@), args@.len()),
{
    let ghost all = texts(args@);
    let mut i: usize = 0;
    while i < args.len()
        invariant
            0 <= i <= args.len(),
            all == texts(args@),
            !forces(all, i as nat),
        decreases args.len() - i,
    {
        assert(all[i as int] == args@[i as int]@);
        if same(args[i].as_str(), "--force") || same(args[i].as_str(), "-f") {
            return true;
        }
        i = i + 1;
    }
    false
}

/// What is to be confirmed, or why there is nothing to undo.
pub open spec fn proposal_text(found: Snapshots) -> Result<Seq<char>, Seq<char>> {
    match found {
        Snapshots::Missing => Err(
            "hotl: no shadow snapshots found (sessions record them automatically when git is available)"@,
        ),
        Snapshots::Unreadable { session } => Err(
            "hotl: shadow repo for session "@ + session@ + " is unreadable"@,
        ),
        Snapshots::NoneBefore { session } => Err(
            "hotl: session "@ + session@ + " has no pre-batch snapshot to restore"@,
        ),
        Snapshots::Found { work_tree, label, session } => Ok(
            "restore `"@ + work_tree@ + "` to snapshot \""@ + label@ + "\" of session "@ + session@
                + "?"@,
        ),
    }
}

/// What is to be confirmed, or why there is nothing to undo.
pub fn proposal(found: &Snapshots) -> (r: Result<String, String>)
    ensures
        match r {
            Ok(s) => proposal_text(*found) == Ok::<Seq<char>, Seq<char>>(s@),
            Err(e) => proposal_text(*found) == Err::<Seq<char>, Seq<char>>(e@),
        },
{
    match found {
        Snapshots::Missing => Err(
            "hotl: no shadow snapshots found (sessions record them automatically when git is available)".to_owned(),
        ),
        Snapshots::Unreadable { session } => {
            let mut s = "hotl: shadow repo for session ".to_owned();
            s.append(session.as_str());
            s.append(" is unreadable");
            Err(s)
        },
        Snapshots::NoneBefore { session } => {
            let mut s = "hotl: session ".to_owned();
            s.append(session.as_str());
            s.append(" has no pre-batch snapshot to restore");
            Err(s)
        },
        Snapshots::Found { work_tree, label, session } => {
            let mut s = "restore `".to_owned();
            s.append(work_tree.as_str());
            s.append("` to snapshot \"");
            s.append(label.as_str());
            s.append("\" of session ");
            s.append(session.as_str());
            s.append("?");
            Ok(s)
        },
    }
}

/// Whether an answer agrees to overwrite files.
pub fn agreed(answer: &str) -> (r: bool)
    ensures
        r == (trimmed(answer@) == "y"@ || trimmed(answer@) == "Y"@ || trimmed(answer@) == "yes"@),
{
    let a = trim(answer);
    same(a, "y") || same(a, "Y") || same(a, "yes")
}

/// The first `n` restored files, one to a line.
pub open spec fn file_lines(files: Seq<Seq<char>>, n: nat) -> Seq<char>
    decreases n,
{
    if n == 0 {
        Seq::empty()
    } else {
        file_lines(files, (n - 1) as nat) + "\n  "@ + files[n - 1]
    }
}

/// What is said once the snapshot `label` was restored.
pub open spec fn restored_text(label: Seq<char>, files: Seq<Seq<char>>) -> Seq<char> {
    if files.len() == 0 {
        "nothing differed — tree already matches \""@ + label + "\""@
    } else {
        "restored "@ + decimal_of(files.len()) + " file(s) to \""@ + label + "\":"@ + file_lines(
            files,
            files.len(),
        ) + "\n(files created after the snapshot are kept, listed above if changed)"@
    }
}

/// What an undo ends with: what is printed, or what is said instead, and the
/// exit code.
pub fn undone(label: &str, restored: &Result<Vec<String>, String>) -> (r: (
    Result<String, String>,
    i32,
))
    ensures
        match restored {
            Ok(files) => r.1 == 0 && r.0 is Ok && r.0->Ok_0@ == restored_text(
                label@,
                texts(files@),
            ),
            Err(e) => r.1 == 1 && r.0 is Err && r.0->Err_0@ == "hotl: undo failed: "@ + e@,
        },
{
    let files = match restored {
        Ok(f) => f,
        Err(e) => {
            let mut s = "hotl: undo failed: ".to_owned();
            s.append(e.as_str());
            return (Err(s), 1);
        },
    };
    let ghost all = texts(files@);
    if files.len() == 0 {
        let mut s = "nothing differed — tree already matches \"".to_owned();
        s.append(label);
        s.append("\"");
        return (Ok(s), 0);
    }
    let mut s = "restored ".to_owned();
    s.append(decimal(files.len() as u64).as_str());
    s.append(" file(s) to \"");
    s.append(label);
    s.append("\":");
    let ghost head = s@;
    assert(s@ =~= head + file_lines(all, 0));
    let mut i: usize = 0;
    while i < files.len()
        invariant
            0 <= i <= files.len(),
            all == texts(files@),
            s@ == head + file_lines(all, i as nat),
        decreases files.len() - i,
    {
        let ghost before = s@;
        assert(all[i as int] == files@[i as int]@);
        s.append("\n  ");
        s.append(files[i].as_str());
        i = i + 1;
        assert(s@ =~= head + file_lines(all, i as nat));
    }
    s.append("\n(files created after the snapshot are kept, listed above if changed)");
    (Ok(s), 0)
}

/// What a session says at its start where no snapshots can be taken.
pub fn snapshots_note(taken: bool) -> (r: Option<String>)
    ensures
        opt_text(r) == (if taken {
            None
        } else {
            Some("hotl: git not found — `hotl undo` snapshots disabled this session"@)
        }),
{
    if taken {
        None
    } else {
        Some("hotl: git not found — `hotl undo` snapshots disabled this session".to_owned())
    }
}

/// An undo without a snapshot to go back to never asks, and never restores.
pub proof fn only_found_snapshots_are_proposed(found: Snapshots)
    ensures
        proposal_text(found) is Ok <==> found is Found,
{
}

/// An undo is forced by either word, wherever it stands, and by nothing else.
pub proof fn either_word_forces(args: Seq<Seq<char>>)
    ensures
        forces(args, args.len()) <==> args.contains("--force"@) || args.contains("-f"@),
{
    if forces(args, args.len()) {
        let i = choose|i: int|
            0 <= i < args.len() && (#[trigger] args[i] == "--force"@ || args[i] == "-f"@);
        assert(args.contains(args[i]));
    }
}

/// What is to be confirmed names the directory, the snapshot and the session, in
/// that order; and a refusal names the session that it is about.
pub proof fn proposals_name_what_is_restored(found: Snapshots)
    ensures
        found matches Snapshots::Found { work_tree, label, session } ==> proposal_text(found) == Ok::<
            Seq<char>,
            Seq<char>,
        >(
            "restore `"@ + work_tree@ + "` to snapshot \""@ + label@ + "\" of session "@ + session@
                + "?"@,
        ),
        found matches Snapshots::Unreadable { session } ==> (proposal_text(found) matches Err(e)
            && crate::text::occurs(e, session@)),
        found matches Snapshots::NoneBefore { session } ==> (proposal_text(found) matches Err(e)
            && crate::text::occurs(e, session@)),
{
    match found {
        Snapshots::Unreadable { session } => {
            let e = proposal_text(found)->Err_0;
            let k = "hotl: shadow repo for session "@.len() as int;
            assert(e.subrange(k, k + session@.len()) =~= session@);
            assert(crate::text::occurs_at(e, session@, k));
        },
        Snapshots::NoneBefore { session } => {
            let e = proposal_text(found)->Err_0;
            let k = "hotl: session "@.len() as int;
            assert(e.subrange(k, k + session@.len()) =~= session@);
            assert(crate::text::occurs_at(e, session@, k));
        },
        _ => {},
    }
}

proof fn lines_name(files: Seq<Seq<char>>, n: nat, i: int)
    requires
        0 <= i < n <= files.len(),
    ensures
        crate::text::occurs(file_lines(files, n), "\n  "@ + files[i]),
    decreases n,
{
    let all = file_lines(files, n);
    let before = file_lines(files, (n - 1) as nat);
    let line = "\n  "@ + files[i];
    if i == n - 1 {
        let k = before.len() as int;
        assert(all.subrange(k, k + line.len()) =~= line);
        assert(crate::text::occurs_at(all, line, k));
    } else {
        lines_name(files, (n - 1) as nat, i);
        let k = choose|k: int| crate::text::occurs_at(before, line, k);
        assert(all.subrange(k, k + line.len()) =~= before.subrange(k, k + line.len()));
        assert(crate::text::occurs_at(all, line, k));
    }
}

/// What was restored is told by the number of files and the snapshot's label, and
/// every file is named on a line of its own.
pub proof fn every_restored_file_is_named(label: Seq<char>, files: Seq<Seq<char>>, i: int)
    requires
        0 <= i < files.len(),
    ensures
        crate::text::occurs(restored_text(label, files), "\n  "@ + files[i]),
        ("restored "@ + decimal_of(files.len()) + " file(s) to \""@ + label + "\":"@).is_prefix_of(
            restored_text(label, files),
        ),
        crate::text::occurs(restored_text(label, Seq::empty()), label),
{
    lines_name(files, files.len(), i);
    let r = restored_text(label, files);
    let head = "restored "@ + decimal_of(files.len()) + " file(s) to \""@ + label + "\":"@;
    let l = file_lines(files, files.len());
    let line = "\n  "@ + files[i];
    let k = choose|k: int| crate::text::occurs_at(l, line, k);
    let h = head.len() as int;
    assert(r.take(h) =~= head);
    assert(r.subrange(h + k, h + k + line.len()) =~= l.subrange(k, k + line.len()));
    assert(crate::text::occurs_at(r, line, h + k));
    let none = restored_text(label, Seq::empty());
    let p = "nothing differed — tree already matches \""@.len() as int;
    assert(none.subrange(p, p + label.len()) =~= label);
    assert(crate::text::occurs_at(none, label, p));
}

} // verus!
