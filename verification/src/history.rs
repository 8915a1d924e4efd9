//! The console's prompt history on disk.
//!
//! One JSON string per line, so that a prompt of several lines stays one
//! entry. At startup the file is trimmed to both caps, the smaller winning,
//! and rewritten only when something was dropped; after that each submitted
//! prompt is one append, without consecutive repetitions.
use crate::config::{history_path, HistoryCfg};
use crate::json::{json_quoted, json_string, parse_json_string, quote_json};
use crate::text::{
    blank, blank_is_all_space, drop_cr, is_space, lines, lines_of, opt_str, opt_text, pieces,
    pieces_concat, pieces_shape, same, texts, trimmed,
};
use vstd::prelude::*;
use vstd::string::*;
use vstd::utf8::*;

verus! {

/// The history file and the last entry written to it. Without a path, history
/// is disabled.
#[derive(Debug)]
pub struct History {
    pub path: Option<String>,
    pub last: Option<String>,
}

/// Whether a line holds anything.
pub open spec fn is_filled(line: Seq<char>) -> bool {
    trimmed(line).len() > 0
}

/// How many of the first `n` lines hold anything.
pub open spec fn filled_upto(lines: Seq<Seq<char>>, n: nat) -> nat
    decreases n,
{
    if n == 0 {
        0
    } else if is_filled(lines[n - 1]) {
        filled_upto(lines, (n - 1) as nat) + 1
    } else {
        filled_upto(lines, (n - 1) as nat)
    }
}

/// The entries that the first `n` lines hold: those that are JSON strings.
pub open spec fn entries_upto(lines: Seq<Seq<char>>, n: nat) -> Seq<Seq<char>>
    decreases n,
{
    if n == 0 {
        Seq::empty()
    } else {
        let before = entries_upto(lines, (n - 1) as nat);
        if is_filled(lines[n - 1]) && json_string(lines[n - 1]) is Some {
            before.push(json_string(lines[n - 1])->0)
        } else {
            before
        }
    }
}

/// The entries that a history file holds.
pub open spec fn stored(file: Seq<char>) -> Seq<Seq<char>> {
    entries_upto(lines_of(file), lines_of(file).len())
}

/// How many lines of a history file hold anything.
pub open spec fn filled_lines(file: Seq<char>) -> nat {
    filled_upto(lines_of(file), lines_of(file).len())
}

/// What an entry costs on disk, in bytes: its JSON string and a line feed.
pub open spec fn cost(e: Seq<char>) -> nat {
    encode_utf8(json_quoted(e)).len() + 1
}

/// How many of the newest entries are kept, given that the newest `kept` are
/// and cost `bytes`: further ones as long as both caps hold, and the newest
/// whatever it costs.
pub open spec fn kept_from(
    entries: Seq<Seq<char>>,
    max_entries: nat,
    max_bytes: nat,
    kept: nat,
    bytes: nat,
) -> nat
    decreases entries.len() - kept,
{
    if kept >= entries.len() || kept >= max_entries {
        kept
    } else {
        let c = cost(entries[entries.len() - 1 - kept]);
        if kept > 0 && bytes + c > max_bytes {
            kept
        } else {
            kept_from(entries, max_entries, max_bytes, kept + 1, bytes + c)
        }
    }
}

/// How many of the newest entries are kept.
pub open spec fn kept_count(entries: Seq<Seq<char>>, max_entries: nat, max_bytes: nat) -> nat {
    kept_from(entries, max_entries, max_bytes, 0, 0)
}

/// The newest entries that fit under both caps.
pub open spec fn bounded(
    entries: Seq<Seq<char>>,
    max_entries: nat,
    max_bytes: nat,
) -> Seq<Seq<char>> {
    entries.skip(entries.len() - kept_count(entries, max_entries, max_bytes))
}

/// The text of a history file with these entries.
pub open spec fn file_text(entries: Seq<Seq<char>>) -> Seq<char>
    decreases entries.len(),
{
    if entries.len() == 0 {
        Seq::empty()
    } else {
        file_text(entries.drop_last()) + json_quoted(entries.last()).push('\n')
    }
}

proof fn kept_from_bound(
    entries: Seq<Seq<char>>,
    max_entries: nat,
    max_bytes: nat,
    kept: nat,
    bytes: nat,
)
    requires
        kept <= entries.len(),
    ensures
        kept <= kept_from(entries, max_entries, max_bytes, kept, bytes) <= entries.len(),
        kept <= max_entries ==> kept_from(entries, max_entries, max_bytes, kept, bytes)
            <= max_entries,
    decreases entries.len() - kept,
{
    if kept >= entries.len() || kept >= max_entries {
    } else {
        let c = cost(entries[entries.len() - 1 - kept]);
        if kept > 0 && bytes + c > max_bytes {
        } else {
            kept_from_bound(entries, max_entries, max_bytes, kept + 1, bytes + c);
        }
    }
}

/// Keeps the newest entries that fit under both caps. The newest stays even if
/// it alone exceeds the byte cap.
pub fn bound(entries: &[String], max_entries: usize, max_bytes: u64) -> (r: Vec<String>)
    ensures
        texts(r@) == bounded(texts(entries@), max_entries as nat, max_bytes as nat),
{
    let ghost all = texts(entries@);
    let n: usize = entries.len();
    let mut kept: usize = 0;
    let mut bytes: u128 = 0;
    let mut go = true;
    while go && kept < n && kept < max_entries
        invariant
            n == entries.len(),
            all == texts(entries@),
            0 <= kept <= n,
            bytes <= 0x1_0000_0000_0000_0000,
            kept == 0 ==> bytes == 0,
            go ==> kept_count(all, max_entries as nat, max_bytes as nat) == kept_from(
                all,
                max_entries as nat,
                max_bytes as nat,
                kept as nat,
                bytes as nat,
            ),
            !go ==> kept_count(all, max_entries as nat, max_bytes as nat) == kept,
        decreases (if go {
            1int
        } else {
            0int
        }), n - kept,
    {
        let e = entries[n - 1 - kept].as_str();
        assert(e@ == all[n - 1 - kept]);
        let q = quote_json(e);
        let c: u128 = q.as_str().as_bytes().len() as u128 + 1;
        if kept > 0 && bytes + c > max_bytes as u128 {
            go = false;
        } else {
            bytes = bytes + c;
            kept = kept + 1;
        }
    }
    proof {
        kept_from_bound(all, max_entries as nat, max_bytes as nat, 0, 0);
    }
    let mut out: Vec<String> = Vec::new();
    let mut i: usize = n - kept;
    while i < n
        invariant
            n == entries.len(),
            kept <= n,
            n - kept <= i <= n,
            all == texts(entries@),
            texts(out@) == all.subrange(n - kept, i as int),
        decreases n - i,
    {
        let ghost before = texts(out@);
        out.push(entries[i].clone());
        assert(texts(out@) =~= before.push(all[i as int]));
        i = i + 1;
    }
    assert(all.subrange(n - kept, n as int) =~= all.skip(n - kept));
    out
}

/// A line that was appended is read back as one more entry.
proof fn appended_line_reads_back(file: Seq<char>, q: Seq<char>, text: Seq<char>)
    requires
        file.len() == 0 || file.last() == '\n',
        q.len() >= 2,
        q[0] == '"',
        q.last() == '"',
        !q.contains('\n'),
        json_string(q) == Some(text),
    ensures
        lines_of(file + q.push('\n')) == lines_of(file).push(q),
        stored(file + q.push('\n')) == stored(file).push(text),
        filled_lines(file + q.push('\n')) == filled_lines(file) + 1,
{
    let line = q.push('\n');
    let whole = file + line;
    one_piece(q, '\n');
    pieces_concat(q, '\n', Seq::empty());
    assert(q.push('\n') + Seq::<char>::empty() =~= line);
    assert(pieces(Seq::<char>::empty(), '\n') =~= seq![Seq::<char>::empty()]);
    assert(pieces(line, '\n') =~= seq![q, Seq::<char>::empty()]);
    assert(drop_cr(q) == q);
    if file.len() == 0 {
        assert(whole =~= line);
        assert(lines_of(file) =~= Seq::empty());
        assert(lines_of(whole) =~= seq![q]);
    } else {
        let body = file.drop_last();
        assert(file =~= body.push('\n'));
        assert(whole =~= body.push('\n') + line);
        pieces_concat(body, '\n', line);
        pieces_concat(body, '\n', Seq::empty());
        assert(body.push('\n') + Seq::<char>::empty() =~= file);
        pieces_shape(body, '\n');
        let p = pieces(body, '\n');
        assert(pieces(file, '\n') =~= p.push(Seq::empty()));
        assert(pieces(whole, '\n') =~= p.push(q).push(Seq::empty()));
    }
    assert(lines_of(whole) =~= lines_of(file).push(q));
    assert(is_filled(q)) by {
        blank_is_all_space(q);
        assert(!is_space(q[0]));
    }
    let old_lines = lines_of(file);
    let new_lines = lines_of(whole);
    entries_of_prefix(old_lines, new_lines, old_lines.len());
}

proof fn entries_of_prefix(a: Seq<Seq<char>>, b: Seq<Seq<char>>, n: nat)
    requires
        n <= a.len() <= b.len(),
        forall|i: int| 0 <= i < n ==> a[i] == b[i],
    ensures
        entries_upto(a, n) == entries_upto(b, n),
        filled_upto(a, n) == filled_upto(b, n),
    decreases n,
{
    if n > 0 {
        entries_of_prefix(a, b, (n - 1) as nat);
    }
}

proof fn one_piece(q: Seq<char>, c: char)
    requires
        !q.contains(c),
    ensures
        pieces(q, c) == seq![q],
    decreases q.len(),
{
    if q.len() > 0 {
        let t = q.drop_last();
        assert forall|i: int| 0 <= i < t.len() implies t[i] != c by {
            assert(q.contains(q[i]));
        }
        assert(!t.contains(c));
        one_piece(t, c);
        assert(q.contains(q.last()));
        assert(seq![t].drop_last() =~= Seq::empty());
        assert(t.push(q.last()) =~= q);
        assert(pieces(q, c) =~= seq![q]);
    } else {
        assert(q =~= Seq::empty());
    }
}

/// The text that replaces the history file, which reads back as `entries`.
pub fn rewrite_text(entries: &[String]) -> (r: String)
    ensures
        r@ == file_text(texts(entries@)),
        stored(r@) == texts(entries@),
        filled_lines(r@) == entries@.len(),
{
    let ghost all = texts(entries@);
    let mut body = String::new();
    let mut i: usize = 0;
    proof {
        assert(all.take(0) =~= Seq::empty());
        assert(pieces(Seq::<char>::empty(), '\n') =~= seq![Seq::<char>::empty()]);
        assert(lines_of(Seq::<char>::empty()) =~= Seq::empty());
    }
    while i < entries.len()
        invariant
            0 <= i <= entries.len(),
            all == texts(entries@),
            body@ == file_text(all.take(i as int)),
            body@.len() == 0 || body@.last() == '\n',
            stored(body@) == all.take(i as int),
            filled_lines(body@) == i,
        decreases entries.len() - i,
    {
        let e = entries[i].as_str();
        assert(e@ == all[i as int]);
        let q = quote_json(e);
        proof {
            appended_line_reads_back(body@, q@, e@);
            assert(all.take(i + 1).drop_last() =~= all.take(i as int));
            assert(all.take(i as int).push(all[i as int]) =~= all.take(i + 1));
        }
        let ghost before = body@;
        body.append(q.as_str());
        body.push('\n');
        assert(body@ =~= before + q@.push('\n'));
        i = i + 1;
    }
    assert(all.take(i as int) =~= all);
    body
}

/// Reads the entries of a history file, and how many lines hold anything.
pub fn read_entries(file: &str) -> (r: (Vec<String>, usize))
    ensures
        texts(r.0@) == stored(file@),
        r.1 == filled_lines(file@),
{
    let all = lines(file);
    let ghost ls = lines_of(file@);
    let mut out: Vec<String> = Vec::new();
    let mut filled: usize = 0;
    assert(texts(out@) =~= Seq::empty());
    let mut i: usize = 0;
    while i < all.len()
        invariant
            0 <= i <= all.len(),
            texts(all@) == ls,
            texts(out@) == entries_upto(ls, i as nat),
            filled == filled_upto(ls, i as nat),
            filled <= i,
        decreases all.len() - i,
    {
        let line = all[i].as_str();
        assert(ls[i as int] == line@);
        if !blank(line) {
            filled = filled + 1;
            if let Some(s) = parse_json_string(line) {
                let ghost before = texts(out@);
                out.push(s);
                assert(texts(out@) =~= before.push(s@));
            }
        }
        i = i + 1;
    }
    assert(texts(all@).len() == all@.len());
    (out, filled)
}

/// How many entries a configuration keeps.
pub open spec fn entry_cap(cfg: HistoryCfg) -> nat {
    (match cfg.max_entries {
        Some(n) => n,
        None => 1000,
    }) as nat
}

/// How many bytes a configuration keeps.
pub open spec fn byte_cap(cfg: HistoryCfg) -> nat {
    (match cfg.max_bytes {
        Some(n) => n,
        None => 2_097_152,
    }) as nat
}

/// The entries that a session starts with: those of the file, within the caps.
pub open spec fn loaded(cfg: HistoryCfg, file: Option<Seq<char>>) -> Seq<Seq<char>> {
    match file {
        Some(f) => bounded(stored(f), entry_cap(cfg), byte_cap(cfg)),
        None => Seq::empty(),
    }
}

impl History {
    /// A history at `path` that starts with what is read from its file: the
    /// entries `read` and how many lines held anything. The second value are the
    /// entries within the caps; the third tells whether the file is to be
    /// replaced by them.
    pub fn start(cfg: &HistoryCfg, path: String, read: &[String], filled: usize) -> (r: (
        Self,
        Vec<String>,
        bool,
    ))
        ensures
            texts(r.1@) == bounded(texts(read@), entry_cap(*cfg), byte_cap(*cfg)),
            opt_text(r.0.path) == Some(path@),
            opt_text(r.0.last) == (if r.1@.len() == 0 {
                None
            } else {
                Some(texts(r.1@).last())
            }),
            r.2 == (r.1@.len() != filled),
    {
        let entries = bound(read, cfg.max_entries(), cfg.max_bytes());
        let last = if entries.len() == 0 {
            None
        } else {
            Some(entries[entries.len() - 1].clone())
        };
        assert(entries@.len() > 0 ==> texts(entries@).last() == entries@.last()@);
        let stale = entries.len() != filled;
        (History { path: Some(path), last }, entries, stale)
    }

    /// Loads the tail of the history file, whose content is `file` where it
    /// can be read. The third value is the text to replace the file with, which
    /// is there exactly when the caps or malformed lines dropped something.
    pub fn load(
        cfg: &HistoryCfg,
        data_dir: &str,
        home: Option<&str>,
        file: Option<&str>,
    ) -> (r: (Self, Vec<String>, Option<String>))
        ensures
            cfg.enabled == Some(false) ==> {
                &&& r.0.path is None
                &&& r.0.last is None
                &&& r.1@.len() == 0
                &&& r.2 is None
            },
            cfg.enabled != Some(false) ==> {
                let entries = loaded(*cfg, opt_str(file));
                &&& opt_text(r.0.path) == Some(history_path(*cfg, data_dir@, opt_str(home)))
                &&& texts(r.1@) == entries
                &&& opt_text(r.0.last) == (if entries.len() == 0 {
                    None
                } else {
                    Some(entries.last())
                })
                &&& r.2 is Some <==> file is Some && entries.len() != filled_lines(file->0@)
                &&& r.2 is Some ==> r.2->0@ == file_text(entries) && stored(r.2->0@) == entries
                    && filled_lines(r.2->0@) == entries.len()
            },
    {
        if !cfg.is_enabled() {
            return (History { path: None, last: None }, Vec::new(), None);
        }
        let path = cfg.resolved_path(data_dir, home);
        let text = match file {
            Some(t) => t,
            None => {
                let none: Vec<String> = Vec::new();
                assert(texts(none@) =~= Seq::empty());
                return (History { path: Some(path), last: None }, none, None);
            },
        };
        let (read, filled) = read_entries(text);
        let (history, entries, stale) = Self::start(cfg, path, read.as_slice(), filled);
        assert(texts(entries@).len() == entries@.len());
        let rewrite = if stale {
            Some(rewrite_text(entries.as_slice()))
        } else {
            None
        };
        (history, entries, rewrite)
    }

    /// Whether a submitted prompt goes to the file.
    pub open spec fn takes(&self, text: Seq<char>) -> bool {
        self.path is Some && trimmed(text).len() > 0 && opt_text(self.last) != Some(text)
    }

    /// The line to append for a submitted prompt: nothing when disabled, when
    /// the text is blank, or when it equals the entry before it. After any file
    /// that is empty or ends its last line, the appended line reads back as one
    /// more entry.
    pub fn append(&self, text: &str) -> (r: Option<String>)
        ensures
            r is Some == self.takes(text@),
            r matches Some(line) ==> {
                &&& line@ == json_quoted(text@).push('\n')
                &&& forall|file: Seq<char>|
                    (file.len() == 0 || file.last() == '\n') ==> stored(#[trigger] (file + line@))
                        == stored(file).push(text@)
            },
    {
        if self.path.is_none() || blank(text) {
            return None;
        }
        if let Some(last) = &self.last {
            if same(last.as_str(), text) {
                return None;
            }
        }
        let mut line = quote_json(text);
        proof {
            let q = line@;
            assert forall|file: Seq<char>|
                (file.len() == 0 || file.last() == '\n') implies stored(
                #[trigger] (file + q.push('\n')),
            ) == stored(file).push(text@) by {
                appended_line_reads_back(file, q, text@);
            }
        }
        line.push('\n');
        Some(line)
    }

    /// Records that the line for `text` was written.
    pub fn appended(&mut self, text: &str)
        ensures
            final(self).path == old(self).path,
            opt_text(final(self).last) == Some(text@),
    {
        self.last = Some(text.to_owned());
    }
}

/// What is kept is the newest part of the history.
pub proof fn bounded_is_newest(entries: Seq<Seq<char>>, max_entries: nat, max_bytes: nat)
    ensures
        bounded(entries, max_entries, max_bytes).len() <= entries.len(),
        bounded(entries, max_entries, max_bytes).len() <= max_entries,
        bounded(entries, max_entries, max_bytes) == entries.skip(
            entries.len() - bounded(entries, max_entries, max_bytes).len(),
        ),
        entries.len() > 0 && max_entries > 0 ==> bounded(entries, max_entries, max_bytes).len() > 0
            && bounded(entries, max_entries, max_bytes).last() == entries.last(),
{
    kept_from_bound(entries, max_entries, max_bytes, 0, 0);
    if entries.len() > 0 && max_entries > 0 {
        let c = cost(entries[entries.len() - 1]);
        kept_from_bound(entries, max_entries, max_bytes, 1, c);
    }
}

/// What `n` entries cost together, counted from the newest.
pub open spec fn cost_of_newest(entries: Seq<Seq<char>>, n: nat) -> nat
    decreases n,
{
    if n == 0 || n > entries.len() {
        0
    } else {
        cost_of_newest(entries, (n - 1) as nat) + cost(entries[entries.len() - n])
    }
}

proof fn kept_cost(
    entries: Seq<Seq<char>>,
    max_entries: nat,
    max_bytes: nat,
    kept: nat,
    bytes: nat,
)
    requires
        kept <= entries.len(),
        bytes == cost_of_newest(entries, kept),
        kept <= 1 || bytes <= max_bytes,
    ensures
        ({
            let k = kept_from(entries, max_entries, max_bytes, kept, bytes);
            &&& k <= 1 || cost_of_newest(entries, k) <= max_bytes
            &&& k < entries.len() && k < max_entries ==> k > 0 && cost_of_newest(entries, k + 1)
                > max_bytes
        }),
    decreases entries.len() - kept,
{
    if kept >= entries.len() || kept >= max_entries {
    } else {
        let c = cost(entries[entries.len() - 1 - kept]);
        assert(cost_of_newest(entries, kept + 1) == bytes + c);
        if kept > 0 && bytes + c > max_bytes {
        } else {
            kept_cost(entries, max_entries, max_bytes, kept + 1, bytes + c);
        }
    }
}

/// What is kept fits the byte cap, but for a single entry, and one entry more
/// would break a cap.
pub proof fn bounded_fits(entries: Seq<Seq<char>>, max_entries: nat, max_bytes: nat)
    ensures
        ({
            let k = bounded(entries, max_entries, max_bytes).len();
            &&& k <= 1 || cost_of_newest(entries, k) <= max_bytes
            &&& k < entries.len() && k < max_entries ==> cost_of_newest(entries, k + 1) > max_bytes
        }),
{
    kept_from_bound(entries, max_entries, max_bytes, 0, 0);
    kept_cost(entries, max_entries, max_bytes, 0, 0);
}

proof fn kept_same(
    a: Seq<Seq<char>>,
    b: Seq<Seq<char>>,
    max_entries: nat,
    max_bytes: nat,
    kept: nat,
    bytes: nat,
)
    requires
        kept <= b.len() <= a.len(),
        b == a.skip(a.len() - b.len()),
        b.len() == kept_from(a, max_entries, max_bytes, kept, bytes),
    ensures
        kept_from(b, max_entries, max_bytes, kept, bytes) == b.len(),
    decreases b.len() - kept,
{
    if kept < b.len() {
        assert(b[b.len() - 1 - kept] == a[a.len() - 1 - kept]);
        let c = cost(a[a.len() - 1 - kept]);
        kept_same(a, b, max_entries, max_bytes, kept + 1, bytes + c);
    }
}

/// Compacting once is enough: what was kept is kept again, whole.
pub proof fn compacting_is_idempotent(entries: Seq<Seq<char>>, max_entries: nat, max_bytes: nat)
    ensures
        bounded(bounded(entries, max_entries, max_bytes), max_entries, max_bytes) == bounded(
            entries,
            max_entries,
            max_bytes,
        ),
{
    let b = bounded(entries, max_entries, max_bytes);
    kept_from_bound(entries, max_entries, max_bytes, 0, 0);
    kept_same(entries, b, max_entries, max_bytes, 0, 0);
    assert(b.skip(0) =~= b);
}

proof fn entries_filter(lines: Seq<Seq<char>>, n: nat)
    requires
        n <= lines.len(),
    ensures
        entries_upto(lines, n) == lines.take(n as int).filter(
            |l: Seq<char>| trimmed(l).len() > 0 && json_string(l) is Some,
        ).map_values(|l: Seq<char>| json_string(l)->0),
        filled_upto(lines, n) == lines.take(n as int).filter(
            |l: Seq<char>| trimmed(l).len() > 0,
        ).len(),
    decreases n,
{
    reveal(Seq::filter);
    let good = |l: Seq<char>| trimmed(l).len() > 0 && json_string(l) is Some;
    let read = |l: Seq<char>| json_string(l)->0;
    if n == 0 {
        assert(lines.take(0).filter(good).map_values(read) =~= Seq::<Seq<char>>::empty());
    } else {
        entries_filter(lines, (n - 1) as nat);
        let t = lines.take(n - 1);
        let x = lines[n - 1];
        assert(lines.take(n as int).drop_last() =~= t);
        assert(lines.take(n as int).last() == x);
        if good(x) {
            assert(t.filter(good).push(x).map_values(read) =~= t.filter(good).map_values(read).push(
                read(x),
            ));
        }
    }
}

/// The entries of a file are what its lines hold, in order; a line that is blank or
/// is no text in quotes is passed over, and no other.
pub proof fn files_hold_their_entries(file: Seq<char>)
    ensures
        stored(file) == lines_of(file).filter(
            |l: Seq<char>| trimmed(l).len() > 0 && json_string(l) is Some,
        ).map_values(|l: Seq<char>| json_string(l)->0),
        filled_lines(file) == lines_of(file).filter(|l: Seq<char>| trimmed(l).len() > 0).len(),
{
    let l = lines_of(file);
    entries_filter(l, l.len());
    assert(l.take(l.len() as int) =~= l);
}

/// A session starts with the newest entries of its file, within a thousand entries
/// and two mebibytes unless other caps are set; without a file it starts with none.
pub proof fn sessions_start_with_the_newest(cfg: HistoryCfg, file: Seq<char>)
    ensures
        loaded(cfg, None).len() == 0,
        loaded(cfg, Some(file)).is_suffix_of(stored(file)),
        cfg.max_entries is None ==> loaded(cfg, Some(file)).len() <= 1000,
        cfg.max_entries matches Some(n) ==> loaded(cfg, Some(file)).len() <= n,
        cfg.max_bytes is None && loaded(cfg, Some(file)).len() > 1 ==> cost_of_newest(
            stored(file),
            loaded(cfg, Some(file)).len(),
        ) <= 2_097_152,
        cfg.max_bytes is Some && loaded(cfg, Some(file)).len() > 1 ==> cost_of_newest(
            stored(file),
            loaded(cfg, Some(file)).len(),
        ) <= cfg.max_bytes->0,
{
    bounded_is_newest(stored(file), entry_cap(cfg), byte_cap(cfg));
    bounded_fits(stored(file), entry_cap(cfg), byte_cap(cfg));
}

/// A prompt goes to the file where there is one, unless it is blank or is the same
/// as the one before.
pub proof fn prompts_are_kept_once(h: History, text: Seq<char>)
    ensures
        h.takes(text) <==> h.path is Some && trimmed(text).len() > 0 && !(h.last matches Some(l)
            && l@ == text),
{
}

} // verus!
