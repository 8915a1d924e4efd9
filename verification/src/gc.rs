//! `hotl gc`: the retention policy and the report.
use crate::config::RetentionCfg;
use crate::measure::{one_place, tenths};
use crate::text::{decimal, decimal_of, opt_str, parse_unsigned, parsed_unsigned, same, texts};
use vstd::prelude::*;
use vstd::string::*;

verus! {

/// What is pruned: sessions older than `max_age` seconds, and all but the
/// newest `max_sessions`.
#[derive(Debug, Clone, Copy, PartialEq, Eq)]
pub struct RetentionPolicy {
    pub max_age: Option<u64>,
    pub max_sessions: Option<usize>,
}

impl RetentionPolicy {
    /// Whether nothing is ever pruned.
    pub fn is_noop(&self) -> (r: bool)
        ensures
            r == (self.max_age is None && self.max_sessions is None),
    {
        self.max_age.is_none() && self.max_sessions.is_none()
    }
}

/// Where `flag` first stands in `args`, from number `i` on.
pub open spec fn position_from(args: Seq<Seq<char>>, flag: Seq<char>, i: int) -> Option<int>
    decreases args.len() - i,
{
    if i < 0 || i >= args.len() {
        None
    } else if args[i] == flag {
        Some(i)
    } else {
        position_from(args, flag, i + 1)
    }
}

/// The argument after the first `flag`.
pub open spec fn value_after(args: Seq<Seq<char>>, flag: Seq<char>) -> Option<Seq<char>> {
    match position_from(args, flag, 0) {
        Some(i) => if i + 1 < args.len() {
            Some(args[i + 1])
        } else {
            None
        },
        None => None,
    }
}

/// The argument after the first `flag`.
pub fn flag_value<'a>(args: &'a [String], flag: &str) -> (r: Option<&'a str>)
    ensures
        opt_str(r) == value_after(texts(args@), flag@),
{
    let mut i: usize = 0;
    while i < args.len()
        invariant
            0 <= i <= args.len(),
            position_from(texts(args@), flag@, 0) == position_from(texts(args@), flag@, i as int),
        decreases args.len() - i,
    {
        assert(texts(args@)[i as int] == args@[i as int]@);
        if same(args[i].as_str(), flag) {
            if i + 1 < args.len() {
                return Some(args[i + 1].as_str());
            } else {
                return None;
            }
        }
        i = i + 1;
    }
    None
}

/// Whether `word` is among `args`.
pub open spec fn mentions(args: Seq<Seq<char>>, word: Seq<char>) -> bool {
    exists|i: int| 0 <= i < args.len() && #[trigger] args[i] == word
}

fn has_word(args: &[String], word: &str) -> (r: bool)
    ensures
        r == mentions(texts(args@), word@),
{
    let mut i: usize = 0;
    while i < args.len()
        invariant
            0 <= i <= args.len(),
            forall|k: int| 0 <= k < i ==> #[trigger] texts(args@)[k] != word@,
        decreases args.len() - i,
    {
        assert(texts(args@)[i as int] == args@[i as int]@);
        if same(args[i].as_str(), word) {
            return true;
        }
        i = i + 1;
    }
    false
}

/// Whether the run only tells what it would do.
pub fn is_dry_run(args: &[String]) -> (r: bool)
    ensures
        r == (mentions(texts(args@), "--dry-run"@) || mentions(texts(args@), "-n"@)),
{
    has_word(args, "--dry-run") || has_word(args, "-n")
}

/// The number after `flag`, where it is one.
pub open spec fn number_after(args: Seq<Seq<char>>, flag: Seq<char>, max: nat) -> Option<nat> {
    match value_after(args, flag) {
        Some(v) => parsed_unsigned(v, max),
        None => None,
    }
}

/// The days that sessions are kept: the flag's, else the file's.
pub open spec fn days_of(args: Seq<Seq<char>>, cfg: RetentionCfg) -> Option<nat> {
    match number_after(args, "--days"@, u64::MAX as nat) {
        Some(n) => Some(n),
        None => match cfg.max_age_days {
            Some(d) => Some(d as nat),
            None => None,
        },
    }
}

/// The policy: flags first, then the file. The days must fit in a count of
/// seconds.
pub fn policy(args: &[String], cfg: &RetentionCfg) -> (r: RetentionPolicy)
    requires
        days_of(texts(args@), *cfg) matches Some(d) ==> d * 86_400 <= u64::MAX,
    ensures
        match days_of(texts(args@), *cfg) {
            Some(d) => r.max_age == Some((d * 86_400) as u64),
            None => r.max_age is None,
        },
        r.max_sessions == (match number_after(texts(args@), "--keep"@, usize::MAX as nat) {
            Some(n) => Some(n as usize),
            None => cfg.max_sessions,
        }),
{
    let flag_days: Option<u64> = match flag_value(args, "--days") {
        Some(v) => parse_unsigned(v, u64::MAX),
        None => None,
    };
    let flag_keep: Option<u64> = match flag_value(args, "--keep") {
        Some(v) => parse_unsigned(v, usize::MAX as u64),
        None => None,
    };
    let days: Option<u64> = match flag_days {
        Some(d) => Some(d),
        None => cfg.max_age_days,
    };
    let max_age: Option<u64> = match days {
        Some(d) => Some(d * 86_400),
        None => None,
    };
    let max_sessions: Option<usize> = match flag_keep {
        Some(n) => Some(n as usize),
        None => cfg.max_sessions,
    };
    RetentionPolicy { max_age, max_sessions }
}

/// A size as people read it: bytes whole, larger units with one decimal place.
pub open spec fn size_text(n: nat) -> Seq<char> {
    if n < 1024 {
        decimal_of(n) + " B"@
    } else if n < 1_048_576 {
        one_place(n, 1024) + " KB"@
    } else if n < 1_073_741_824 {
        one_place(n, 1_048_576) + " MB"@
    } else {
        one_place(n, 1_073_741_824) + " GB"@
    }
}

/// A size as people read it.
pub fn human_bytes(n: u64) -> (r: String)
    ensures
        r@ == size_text(n as nat),
{
    if n < 1024 {
        let mut s = decimal(n);
        s.append(" B");
        s
    } else if n < 1_048_576 {
        let mut s = tenths(n, 1024);
        s.append(" KB");
        s
    } else if n < 1_073_741_824 {
        let mut s = tenths(n, 1_048_576);
        s.append(" MB");
        s
    } else {
        let mut s = tenths(n, 1_073_741_824);
        s.append(" GB");
        s
    }
}

/// One pruned session.
#[derive(Debug)]
pub struct Pruned {
    pub id: String,
    pub bytes: u64,
}

/// What the first `n` pruned sessions freed.
pub open spec fn freed(pruned: Seq<Pruned>, n: nat) -> nat
    decreases n,
{
    if n == 0 {
        0
    } else {
        freed(pruned, (n - 1) as nat) + pruned[n - 1].bytes as nat
    }
}

proof fn freed_grows(pruned: Seq<Pruned>, k: nat, n: nat)
    requires
        k <= n,
    ensures
        freed(pruned, k) <= freed(pruned, n),
    decreases n,
{
    if k < n {
        freed_grows(pruned, k, (n - 1) as nat);
    }
}

/// The lines that a dry run adds: one for each session.
pub open spec fn pruned_lines(pruned: Seq<Pruned>, n: nat) -> Seq<char>
    decreases n,
{
    if n == 0 {
        Seq::empty()
    } else {
        pruned_lines(pruned, (n - 1) as nat) + "\n  "@ + pruned[n - 1].id@ + " ("@ + size_text(
            pruned[n - 1].bytes as nat,
        ) + ")"@
    }
}

/// The report of a run.
pub open spec fn report_text(pruned: Seq<Pruned>, sockets: nat, dry_run: bool) -> Seq<char> {
    if pruned.len() == 0 && sockets == 0 {
        "nothing to prune — the stores are within the retention policy."@
    } else {
        let head = (if dry_run {
            "would prune "@
        } else {
            "pruned "@
        }) + decimal_of(pruned.len()) + " session(s), freeing "@ + size_text(
            freed(pruned, pruned.len()),
        ) + " — plus "@ + decimal_of(sockets) + " dead socket(s)."@;
        if dry_run {
            head + pruned_lines(pruned, pruned.len())
                + "\n(dry run — nothing was deleted; re-run without --dry-run)"@
        } else {
            head
        }
    }
}

/// The report of a run, as it is printed.
pub fn report(pruned: &[Pruned], sockets: usize, dry_run: bool) -> (r: String)
    requires
        freed(pruned@, pruned@.len()) <= u64::MAX,
    ensures
        r@ == report_text(pruned@, sockets as nat, dry_run),
{
    if pruned.len() == 0 && sockets == 0 {
        return "nothing to prune — the stores are within the retention policy.".to_owned();
    }
    let mut total: u64 = 0;
    let mut i: usize = 0;
    while i < pruned.len()
        invariant
            0 <= i <= pruned.len(),
            freed(pruned@, pruned@.len()) <= u64::MAX,
            total == freed(pruned@, i as nat),
        decreases pruned.len() - i,
    {
        proof {
            freed_grows(pruned@, (i + 1) as nat, pruned@.len());
        }
        total = total + pruned[i].bytes;
        i = i + 1;
    }
    let mut s = if dry_run {
        "would prune ".to_owned()
    } else {
        "pruned ".to_owned()
    };
    s.append(decimal(pruned.len() as u64).as_str());
    s.append(" session(s), freeing ");
    s.append(human_bytes(total).as_str());
    s.append(" — plus ");
    s.append(decimal(sockets as u64).as_str());
    s.append(" dead socket(s).");
    if dry_run {
        let ghost head = s@;
        let mut k: usize = 0;
        assert(head + pruned_lines(pruned@, 0) =~= head);
        while k < pruned.len()
            invariant
                0 <= k <= pruned.len(),
                s@ == head + pruned_lines(pruned@, k as nat),
            decreases pruned.len() - k,
        {
            let ghost before = s@;
            s.append("\n  ");
            s.append(pruned[k].id.as_str());
            s.append(" (");
            s.append(human_bytes(pruned[k].bytes).as_str());
            s.append(")");
            k = k + 1;
            assert(s@ =~= head + pruned_lines(pruned@, k as nat));
        }
        s.append("\n(dry run — nothing was deleted; re-run without --dry-run)");
    }
    s
}

/// A flag's value is the argument after its first occurrence.
pub proof fn flags_take_what_follows(args: Seq<Seq<char>>, flag: Seq<char>, i: int)
    requires
        0 <= i < args.len(),
        args[i] == flag,
        forall|k: int| 0 <= k < i ==> #[trigger] args[k] != flag,
    ensures
        value_after(args, flag) == (if i + 1 < args.len() {
            Some(args[i + 1])
        } else {
            None
        }),
{
    first_place(args, flag, 0, i);
}

proof fn first_place(args: Seq<Seq<char>>, flag: Seq<char>, from: int, i: int)
    requires
        0 <= from <= i < args.len(),
        args[i] == flag,
        forall|k: int| 0 <= k < i ==> #[trigger] args[k] != flag,
    ensures
        position_from(args, flag, from) == Some(i),
    decreases i - from,
{
    if from < i {
        assert(args[from] != flag);
        first_place(args, flag, from + 1, i);
    }
}

proof fn no_place(args: Seq<Seq<char>>, flag: Seq<char>, from: int)
    requires
        0 <= from,
        forall|k: int| 0 <= k < args.len() ==> #[trigger] args[k] != flag,
    ensures
        position_from(args, flag, from) is None,
    decreases args.len() - from,
{
    if from < args.len() {
        no_place(args, flag, from + 1);
    }
}

/// The days on the command line come before the file's; words that are no number
/// there are passed over, and a flag that is not there says nothing.
pub proof fn days_on_the_command_line_win(args: Seq<Seq<char>>, cfg: RetentionCfg, n: u64, i: int)
    ensures
        0 <= i < args.len() - 1 && args[i] == "--days"@ && (forall|k: int|
            0 <= k < i ==> #[trigger] args[k] != "--days"@) && args[i + 1] == decimal_of(n as nat)
            ==> days_of(args, cfg) == Some(n as nat),
        (forall|k: int| 0 <= k < args.len() ==> #[trigger] args[k] != "--days"@) ==> days_of(
            args,
            cfg,
        ) == (match cfg.max_age_days {
            Some(d) => Some(d as nat),
            None => None,
        }),
{
    crate::text::numerals_read_back(n as nat, u64::MAX as nat, 0);
    if 0 <= i < args.len() - 1 && args[i] == "--days"@ && (forall|k: int|
        0 <= k < i ==> #[trigger] args[k] != "--days"@) {
        flags_take_what_follows(args, "--days"@, i);
    }
    if forall|k: int| 0 <= k < args.len() ==> #[trigger] args[k] != "--days"@ {
        no_place(args, "--days"@, 0);
    }
}

/// What is freed is the bytes of every pruned session together.
pub proof fn freed_is_the_sum(pruned: Seq<Pruned>, n: nat)
    requires
        n <= pruned.len(),
    ensures
        freed(pruned, n) == pruned.take(n as int).fold_left(
            0nat,
            |sum: nat, p: Pruned| sum + p.bytes as nat,
        ),
    decreases n,
{
    if n > 0 {
        freed_is_the_sum(pruned, (n - 1) as nat);
        assert(pruned.take(n as int).drop_last() =~= pruned.take(n - 1));
        assert(pruned.take(n as int).last() == pruned[n - 1]);
    }
}

/// A size is told in bytes below a kibibyte, and above that in the largest unit that
/// it fills, to one place.
pub proof fn sizes_use_the_largest_unit(n: nat)
    ensures
        n < 1024 ==> size_text(n) == decimal_of(n) + " B"@,
        1024 <= n < 1024 * 1024 ==> size_text(n) == one_place(n, 1024) + " KB"@,
        1024 * 1024 <= n < 1024 * 1024 * 1024 ==> size_text(n) == one_place(n, 1024 * 1024)
            + " MB"@,
        1024 * 1024 * 1024 <= n ==> size_text(n) == one_place(n, 1024 * 1024 * 1024) + " GB"@,
{
}

proof fn lines_name(pruned: Seq<Pruned>, n: nat, i: int)
    requires
        0 <= i < n <= pruned.len(),
    ensures
        crate::text::occurs(
            pruned_lines(pruned, n),
            "\n  "@ + pruned[i].id@ + " ("@ + size_text(pruned[i].bytes as nat) + ")"@,
        ),
    decreases n,
{
    let all = pruned_lines(pruned, n);
    let before = pruned_lines(pruned, (n - 1) as nat);
    let line = "\n  "@ + pruned[i].id@ + " ("@ + size_text(pruned[i].bytes as nat) + ")"@;
    if i == n - 1 {
        let k = before.len() as int;
        assert(all.subrange(k, k + line.len()) =~= line);
        assert(crate::text::occurs_at(all, line, k));
    } else {
        lines_name(pruned, (n - 1) as nat, i);
        let k = choose|k: int| crate::text::occurs_at(before, line, k);
        assert(all.subrange(k, k + line.len()) =~= before.subrange(k, k + line.len()));
        assert(crate::text::occurs_at(all, line, k));
    }
}

/// The report gives the number of sessions, what they free and the number of dead
/// sockets; a dry run says that it would, and names every session with its size.
pub proof fn reports_tell_what_is_pruned(pruned: Seq<Pruned>, sockets: nat, i: int)
    requires
        pruned.len() > 0 || sockets > 0,
    ensures
        report_text(pruned, sockets, false) == "pruned "@ + decimal_of(pruned.len())
            + " session(s), freeing "@ + size_text(
            pruned.fold_left(0nat, |sum: nat, p: Pruned| sum + p.bytes as nat),
        ) + " — plus "@ + decimal_of(sockets) + " dead socket(s)."@,
        ("would "@).is_prefix_of(report_text(pruned, sockets, true)),
        0 <= i < pruned.len() ==> crate::text::occurs(
            report_text(pruned, sockets, true),
            "\n  "@ + pruned[i].id@ + " ("@ + size_text(pruned[i].bytes as nat) + ")"@,
        ),
        report_text(Seq::empty(), 0, true) == report_text(Seq::empty(), 0, false),
{
    freed_is_the_sum(pruned, pruned.len());
    assert(pruned.take(pruned.len() as int) =~= pruned);
    reveal_strlit("would prune ");
    reveal_strlit("would ");
    let r = report_text(pruned, sockets, true);
    assert(r.take(6) =~= "would "@);
    if 0 <= i < pruned.len() {
        lines_name(pruned, pruned.len(), i);
        let l = pruned_lines(pruned, pruned.len());
        let line = "\n  "@ + pruned[i].id@ + " ("@ + size_text(pruned[i].bytes as nat) + ")"@;
        let k = choose|k: int| crate::text::occurs_at(l, line, k);
        let tail = "\n(dry run — nothing was deleted; re-run without --dry-run)"@;
        let h = r.len() - tail.len() - l.len();
        assert(r.subrange(h + k, h + k + line.len()) =~= l.subrange(k, k + line.len()));
        assert(crate::text::occurs_at(r, line, h + k));
    }
}

/// A word is mentioned exactly where it is one of the arguments.
pub proof fn mentioned_words_are_arguments(args: Seq<Seq<char>>, word: Seq<char>)
    ensures
        mentions(args, word) <==> args.contains(word),
{
    if mentions(args, word) {
        let i = choose|i: int| 0 <= i < args.len() && #[trigger] args[i] == word;
        assert(args.contains(args[i]));
    }
}

} // verus!
