//! Unified diffs for the permission card.
//!
//! The human approving a `write` or an `edit` sees what changes: a plain
//! longest-common-subsequence diff over lines, trimmed to a few lines of
//! context and capped at a length that one still reads.
use crate::json::{no_members, text_at, Json, JsonV};
use crate::text::{decimal, same, split, texts};
use vstd::prelude::*;
use vstd::string::*;

verus! {

/// Longest side, in lines, before the quadratic table is given up for a
/// whole-file replacement.
pub const LCS_MAX_LINES: usize = 2_000;

/// Rows that the card shows before it truncates.
pub const MAX_DIFF_LINES: usize = 40;

/// Unchanged lines kept on either side of a change.
pub const CONTEXT_LINES: usize = 3;

/// What a row of a diff stands for.
#[derive(Debug, Clone, Copy, PartialEq, Eq, Structural)]
pub enum Op {
    Ctx,
    Add,
    Del,
    /// The `[+N more lines]` trailer; never part of the file's content.
    Trailer,
}

impl Op {
    /// The wire spelling.
    pub open spec fn word(self) -> Seq<char> {
        match self {
            Op::Ctx => "ctx"@,
            Op::Add => "add"@,
            Op::Del => "del"@,
            Op::Trailer => "trailer"@,
        }
    }

    /// The wire spelling.
    pub fn as_str(self) -> (r: &'static str)
        ensures
            r@ == self.word(),
    {
        match self {
            Op::Ctx => "ctx",
            Op::Add => "add",
            Op::Del => "del",
            Op::Trailer => "trailer",
        }
    }
}

/// One row of a diff.
#[derive(Debug, PartialEq, Eq)]
pub struct DiffLine {
    pub op: Op,
    pub text: String,
}

impl View for DiffLine {
    type V = (Op, Seq<char>);

    open spec fn view(&self) -> (Op, Seq<char>) {
        (self.op, self.text@)
    }
}

/// The views of a list of rows.
pub open spec fn rows(v: Seq<DiffLine>) -> Seq<(Op, Seq<char>)> {
    Seq::new(v.len(), |i: int| v[i]@)
}

impl DiffLine {
    /// A row.
    pub fn new(op: Op, text: &str) -> (r: Self)
        ensures
            r@ == (op, text@),
    {
        DiffLine { op, text: text.to_owned() }
    }

    /// The row's wire shape, `{op, text}`.
    pub fn to_json(&self) -> (r: Json)
        ensures
            r@ == no_members().put("op"@, JsonV::Str(self.op.word())).put(
                "text"@,
                JsonV::Str(self.text@),
            ),
    {
        Json::object().with("op", Json::text(self.op.as_str())).with(
            "text",
            Json::text(self.text.as_str()),
        )
    }
}

/// The lines of a file: a trailing line feed ends the last line and starts no
/// further one.
pub open spec fn file_lines(text: Seq<char>) -> Seq<Seq<char>> {
    let p = crate::text::pieces(text, '\n');
    if p.last().len() == 0 {
        p.drop_last()
    } else {
        p
    }
}

/// The lines of a file.
pub fn lines(text: &str) -> (r: Vec<String>)
    ensures
        texts(r@) == file_lines(text@),
{
    let mut v = split(text, '\n');
    proof {
        crate::text::pieces_shape(text@, '\n');
        assert(texts(v@).len() >= 1);
    }
    let ghost all = texts(v@);
    assert(all.last() == v@[v@.len() - 1]@);
    if v[v.len() - 1].as_str().is_empty() {
        v.pop();
        assert(texts(v@) == all.drop_last());
    }
    v
}

/// The length of a longest common subsequence of `a` and `b`.
pub open spec fn lcs(a: Seq<Seq<char>>, b: Seq<Seq<char>>) -> nat
    decreases a.len() + b.len(),
{
    if a.len() == 0 || b.len() == 0 {
        0
    } else if a[0] == b[0] {
        lcs(a.drop_first(), b.drop_first()) + 1
    } else {
        let x = lcs(a.drop_first(), b);
        let y = lcs(a, b.drop_first());
        if x >= y {
            x
        } else {
            y
        }
    }
}

/// Every line of `v` as a row of the kind `op`.
pub open spec fn marked(op: Op, v: Seq<Seq<char>>) -> Seq<(Op, Seq<char>)> {
    Seq::new(v.len(), |i: int| (op, v[i]))
}

/// The edit script from `a` to `b`: common lines as context, and where the
/// lines differ the step that keeps the longer common rest, a deletion on a tie.
pub open spec fn edits(a: Seq<Seq<char>>, b: Seq<Seq<char>>) -> Seq<(Op, Seq<char>)>
    decreases a.len() + b.len(),
{
    if a.len() == 0 {
        marked(Op::Add, b)
    } else if b.len() == 0 {
        marked(Op::Del, a)
    } else if a[0] == b[0] {
        seq![(Op::Ctx, a[0])] + edits(a.drop_first(), b.drop_first())
    } else if lcs(a.drop_first(), b) >= lcs(a, b.drop_first()) {
        seq![(Op::Del, a[0])] + edits(a.drop_first(), b)
    } else {
        seq![(Op::Add, b[0])] + edits(a, b.drop_first())
    }
}

/// A longest common subsequence is no longer than either side.
pub proof fn lcs_bound(a: Seq<Seq<char>>, b: Seq<Seq<char>>)
    ensures
        lcs(a, b) <= a.len(),
        lcs(a, b) <= b.len(),
    decreases a.len() + b.len(),
{
    if a.len() == 0 || b.len() == 0 {
    } else if a[0] == b[0] {
        lcs_bound(a.drop_first(), b.drop_first());
    } else {
        lcs_bound(a.drop_first(), b);
        lcs_bound(a, b.drop_first());
    }
}

/// The table of [`lcs`] over all pairs of suffixes, both indices counted from
/// the end: entry `x`, `y` is for the last `x` lines of `a` and the last `y` of `b`.
pub open spec fn is_table(
    t: Seq<Vec<usize>>,
    a: Seq<Seq<char>>,
    b: Seq<Seq<char>>,
    n: int,
) -> bool {
    &&& t.len() == n
    &&& forall|x: int|
        0 <= x < n ==> is_table_row(#[trigger] t[x]@, a.skip(a.len() - x), b, b.len() as int + 1)
}

/// The first `n` entries of the table's row for the suffix `a`.
pub open spec fn is_table_row(
    row: Seq<usize>,
    a: Seq<Seq<char>>,
    b: Seq<Seq<char>>,
    n: int,
) -> bool {
    &&& row.len() == n
    &&& forall|y: int| 0 <= y < n ==> #[trigger] row[y] == lcs(a, b.skip(b.len() - y))
}

fn table_row(a: &[String], i: usize, b: &[String], below: &Vec<usize>) -> (row: Vec<usize>)
    requires
        i < a.len(),
        b.len() < usize::MAX,
        is_table_row(
            below@,
            texts(a@).skip(i + 1),
            texts(b@),
            b.len() + 1,
        ),
    ensures
        is_table_row(
            row@,
            texts(a@).skip(i as int),
            texts(b@),
            b.len() + 1,
        ),
{
    let ghost ta = texts(a@).skip(i as int);
    let ghost tb = texts(b@);
    let m: usize = b.len();
    let mut row: Vec<usize> = Vec::new();
    row.push(0);
    assert(tb.skip(m as int).len() == 0);
    let mut y: usize = 0;
    assert(ta.drop_first() == texts(a@).skip(i + 1));
    while y < m
        invariant
            i < a.len(),
            m == b.len(),
            m < usize::MAX,
            0 <= y <= m,
            tb == texts(b@),
            ta == texts(a@).skip(i as int),
            is_table_row(below@, ta.drop_first(), tb, m + 1),
            is_table_row(row@, ta, tb, y + 1),
        decreases m - y,
    {
        let j: usize = m - 1 - y;
        let ghost sb = tb.skip(j as int);
        assert(sb.drop_first() == tb.skip(m - y));
        assert(sb[0] == b@[j as int]@);
        assert(ta[0] == a@[i as int]@);
        assert(below@[y as int] == lcs(ta.drop_first(), tb.skip(tb.len() - y)));
        assert(below@[y + 1] == lcs(ta.drop_first(), tb.skip(tb.len() - (y + 1))));
        assert(row@[y as int] == lcs(ta, tb.skip(tb.len() - y)));
        proof {
            lcs_bound(ta.drop_first(), sb.drop_first());
        }
        let entry: usize = if same(a[i].as_str(), b[j].as_str()) {
            below[y] + 1
        } else if below[y + 1] >= row[y] {
            below[y + 1]
        } else {
            row[y]
        };
        assert(entry == lcs(ta, sb));
        row.push(entry);
        y = y + 1;
    }
    row
}

/// The full edit script, without context trimming.
pub fn script(a: &[String], b: &[String]) -> (r: Vec<DiffLine>)
    requires
        a.len() < usize::MAX,
        b.len() < usize::MAX,
    ensures
        rows(r@) == edits(texts(a@), texts(b@)),
{
    let ghost ta = texts(a@);
    let ghost tb = texts(b@);
    let n: usize = a.len();
    let m: usize = b.len();
    let mut table: Vec<Vec<usize>> = Vec::new();
    let mut zeros: Vec<usize> = Vec::new();
    let mut k: usize = 0;
    while k <= m
        invariant
            m == b.len(),
            m < usize::MAX,
            n == a.len(),
            ta == texts(a@),
            tb == texts(b@),
            0 <= k <= m + 1,
            is_table_row(zeros@, ta.skip(n as int), tb, k as int),
        decreases m + 1 - k,
    {
        assert(ta.skip(n as int).len() == 0);
        zeros.push(0);
        k = k + 1;
    }
    table.push(zeros);
    let mut x: usize = 0;
    while x < n
        invariant
            m == b.len(),
            m < usize::MAX,
            n == a.len(),
            ta == texts(a@),
            tb == texts(b@),
            0 <= x <= n,
            is_table(table@, ta, tb, x + 1),
        decreases n - x,
    {
        let i: usize = n - 1 - x;
        assert(is_table_row(table@[x as int]@, ta.skip(ta.len() - x), tb, tb.len() as int + 1));
        let row = table_row(a, i, b, &table[x]);
        table.push(row);
        x = x + 1;
    }
    let mut i: usize = 0;
    let mut j: usize = 0;
    let mut out: Vec<DiffLine> = Vec::new();
    assert(ta.skip(0) == ta);
    assert(tb.skip(0) == tb);
    assert(rows(out@) + edits(ta, tb) == edits(ta, tb));
    while i < n && j < m
        invariant
            m == b.len(),
            n == a.len(),
            ta == texts(a@),
            tb == texts(b@),
            0 <= i <= n,
            0 <= j <= m,
            is_table(table@, ta, tb, n + 1),
            rows(out@) + edits(ta.skip(i as int), tb.skip(j as int)) == edits(ta, tb),
        decreases n - i + m - j,
    {
        let ghost sa = ta.skip(i as int);
        let ghost sb = tb.skip(j as int);
        let ghost before = rows(out@);
        assert(sa[0] == a@[i as int]@);
        assert(sb[0] == b@[j as int]@);
        assert(sa.drop_first() == ta.skip(i + 1));
        assert(sb.drop_first() == tb.skip(j + 1));
        let p: usize = n - i;
        let q: usize = m - j;
        assert(is_table_row(table@[p - 1]@, ta.skip(ta.len() - (p - 1)), tb, tb.len() as int + 1));
        assert(is_table_row(table@[p as int]@, ta.skip(ta.len() - p), tb, tb.len() as int + 1));
        assert(table@[p - 1]@[q as int] == lcs(sa.drop_first(), tb.skip(tb.len() - q)));
        assert(table@[p as int]@[q - 1] == lcs(sa, tb.skip(tb.len() - (q - 1))));
        if same(a[i].as_str(), b[j].as_str()) {
            out.push(DiffLine::new(Op::Ctx, a[i].as_str()));
            i = i + 1;
            j = j + 1;
            assert(rows(out@) == before.push((Op::Ctx, sa[0])));
        } else if table[p - 1][q] >= table[p][q - 1] {
            out.push(DiffLine::new(Op::Del, a[i].as_str()));
            i = i + 1;
            assert(rows(out@) == before.push((Op::Del, sa[0])));
        } else {
            out.push(DiffLine::new(Op::Add, b[j].as_str()));
            j = j + 1;
            assert(rows(out@) == before.push((Op::Add, sb[0])));
        }
        assert(rows(out@) + edits(ta.skip(i as int), tb.skip(j as int)) == before + edits(sa, sb));
    }
    let ghost tail = edits(ta.skip(i as int), tb.skip(j as int));
    assert(tail == marked(Op::Del, ta.skip(i as int)) + marked(Op::Add, tb.skip(j as int)));
    while i < n
        invariant
            m == b.len(),
            n == a.len(),
            ta == texts(a@),
            tb == texts(b@),
            0 <= i <= n,
            0 <= j <= m,
            rows(out@) + (marked(Op::Del, ta.skip(i as int)) + marked(Op::Add, tb.skip(j as int)))
                == edits(ta, tb),
        decreases n - i,
    {
        let ghost before = rows(out@);
        let ghost rest = marked(Op::Del, ta.skip(i as int));
        out.push(DiffLine::new(Op::Del, a[i].as_str()));
        i = i + 1;
        assert(rows(out@) == before.push((Op::Del, ta[i - 1])));
        assert(rest == seq![(Op::Del, ta[i - 1])] + marked(Op::Del, ta.skip(i as int)));
    }
    while j < m
        invariant
            m == b.len(),
            tb == texts(b@),
            0 <= j <= m,
            rows(out@) + marked(Op::Add, tb.skip(j as int)) == edits(ta, tb),
        decreases m - j,
    {
        let ghost before = rows(out@);
        let ghost rest = marked(Op::Add, tb.skip(j as int));
        out.push(DiffLine::new(Op::Add, b[j].as_str()));
        j = j + 1;
        assert(rows(out@) == before.push((Op::Add, tb[j - 1])));
        assert(rest == seq![(Op::Add, tb[j - 1])] + marked(Op::Add, tb.skip(j as int)));
    }
    assert(rows(out@) + marked(Op::Add, tb.skip(j as int)) == rows(out@));
    out
}

/// Row `i` is a change, or stands within the context of one.
pub open spec fn near_change(s: Seq<(Op, Seq<char>)>, i: int) -> bool {
    exists|k: int|
        0 <= k < s.len() && i - CONTEXT_LINES <= k <= i + CONTEXT_LINES && (#[trigger] s[k]).0
            != Op::Ctx
}

/// The first `n` rows of `s` without those far from any change.
pub open spec fn kept_rows(s: Seq<(Op, Seq<char>)>, n: int) -> Seq<(Op, Seq<char>)>
    decreases n,
{
    if n <= 0 {
        Seq::empty()
    } else if s[n - 1].0 != Op::Ctx || near_change(s, n - 1) {
        kept_rows(s, n - 1).push(s[n - 1])
    } else {
        kept_rows(s, n - 1)
    }
}

/// The rows of `s` without context far from any change.
pub open spec fn trimmed_rows(s: Seq<(Op, Seq<char>)>) -> Seq<(Op, Seq<char>)> {
    kept_rows(s, s.len() as int)
}

/// Whether a change stands within the context of row `i`.
fn change_near(s: &[DiffLine], i: usize) -> (r: bool)
    requires
        i < s.len(),
    ensures
        r == near_change(rows(s@), i as int),
{
    let lo: usize = if i < CONTEXT_LINES {
        0
    } else {
        i - CONTEXT_LINES
    };
    let hi: usize = if s.len() - 1 - i < CONTEXT_LINES {
        s.len() - 1
    } else {
        i + CONTEXT_LINES
    };
    let ghost rs = rows(s@);
    let mut k: usize = lo;
    while k <= hi
        invariant
            lo <= k <= hi + 1,
            hi < s.len(),
            rs == rows(s@),
            i < s.len(),
            lo == if i < CONTEXT_LINES {
                0
            } else {
                i - CONTEXT_LINES
            },
            hi == if s.len() - 1 - i < CONTEXT_LINES {
                s.len() - 1
            } else {
                i + CONTEXT_LINES
            },
            forall|x: int| lo <= x < k ==> (#[trigger] rs[x]).0 == Op::Ctx,
        decreases hi + 1 - k,
    {
        assert(rs[k as int] == s@[k as int]@);
        if s[k].op != Op::Ctx {
            assert(near_change(rs, i as int));
            return true;
        }
        k = k + 1;
    }
    assert(!near_change(rs, i as int));
    false
}

/// Drops the runs of context that stand more than [`CONTEXT_LINES`] from any
/// change. A script without changes keeps nothing.
pub fn trim_context(s: Vec<DiffLine>) -> (r: Vec<DiffLine>)
    ensures
        rows(r@) == trimmed_rows(rows(s@)),
{
    let mut out: Vec<DiffLine> = Vec::new();
    let mut i: usize = 0;
    let ghost rs = rows(s@);
    while i < s.len()
        invariant
            0 <= i <= s.len(),
            rs == rows(s@),
            rows(out@) == kept_rows(rs, i as int),
        decreases s.len() - i,
    {
        assert(rs[i as int] == s@[i as int]@);
        if s[i].op != Op::Ctx || change_near(s.as_slice(), i) {
            let ghost before = rows(out@);
            out.push(DiffLine::new(s[i].op, s[i].text.as_str()));
            assert(rows(out@) == before.push(rs[i as int]));
        }
        i = i + 1;
    }
    out
}

/// The trailer's text for `hidden` rows left out.
pub open spec fn trailer_text(hidden: nat) -> Seq<char> {
    "[+"@ + crate::text::decimal_of(hidden) + " more lines]"@
}

/// The first [`MAX_DIFF_LINES`] rows, and a count of the rest where there is one.
pub open spec fn capped_rows(s: Seq<(Op, Seq<char>)>) -> Seq<(Op, Seq<char>)> {
    if s.len() <= MAX_DIFF_LINES {
        s
    } else {
        s.take(MAX_DIFF_LINES as int).push(
            (Op::Trailer, trailer_text((s.len() - MAX_DIFF_LINES) as nat)),
        )
    }
}

/// Caps at [`MAX_DIFF_LINES`], with a count in place of the tail.
pub fn cap(d: Vec<DiffLine>) -> (r: Vec<DiffLine>)
    ensures
        rows(r@) == capped_rows(rows(d@)),
        forall|i: int|
            0 <= i < rows(r@).len() && i < MAX_DIFF_LINES ==> #[trigger] rows(r@)[i] == rows(d@)[i],
        d@.len() <= MAX_DIFF_LINES ==> r@.len() == d@.len(),
        d@.len() > MAX_DIFF_LINES ==> r@.len() == MAX_DIFF_LINES + 1,
{
    let mut d = d;
    if d.len() <= MAX_DIFF_LINES {
        return d;
    }
    let ghost all = rows(d@);
    let hidden: usize = d.len() - MAX_DIFF_LINES;
    d.truncate(MAX_DIFF_LINES);
    assert(rows(d@) == all.take(MAX_DIFF_LINES as int));
    let mut text = "[+".to_owned();
    text.append(decimal(hidden as u64).as_str());
    text.append(" more lines]");
    let ghost before = rows(d@);
    d.push(DiffLine::new(Op::Trailer, text.as_str()));
    assert(rows(d@) == before.push((Op::Trailer, text@)));
    d
}

/// The rows of a diff before trimming: the edit script, or for a side of more
/// than [`LCS_MAX_LINES`] lines the whole old file out and the whole new one in.
pub open spec fn full_rows(a: Seq<Seq<char>>, b: Seq<Seq<char>>) -> Seq<(Op, Seq<char>)> {
    if a.len() > LCS_MAX_LINES || b.len() > LCS_MAX_LINES {
        marked(Op::Del, a) + marked(Op::Add, b)
    } else {
        edits(a, b)
    }
}

/// The rows of the diff from `old` to `new`.
pub open spec fn diff_rows(old: Seq<char>, new: Seq<char>) -> Seq<(Op, Seq<char>)> {
    capped_rows(trimmed_rows(full_rows(file_lines(old), file_lines(new))))
}

fn push_marked(out: &mut Vec<DiffLine>, op: Op, v: &[String])
    ensures
        rows(final(out)@) == rows(old(out)@) + marked(op, texts(v@)),
{
    let ghost start = rows(out@);
    let ghost t = texts(v@);
    let mut i: usize = 0;
    assert(start + marked(op, t.take(0)) == start);
    while i < v.len()
        invariant
            0 <= i <= v.len(),
            t == texts(v@),
            rows(out@) == start + marked(op, t.take(i as int)),
        decreases v.len() - i,
    {
        let ghost before = rows(out@);
        out.push(DiffLine::new(op, v[i].as_str()));
        assert(rows(out@) == before.push((op, t[i as int])));
        i = i + 1;
        assert(marked(op, t.take(i as int)) == marked(op, t.take(i - 1)).push((op, t[i - 1])));
    }
    assert(t.take(i as int) == t);
}

/// A unified diff of `old` to `new`: context, deletions and additions in file
/// order, trimmed and capped.
pub fn unified(old: &str, new: &str) -> (r: Vec<DiffLine>)
    ensures
        rows(r@) == diff_rows(old@, new@),
{
    let a = lines(old);
    let b = lines(new);
    let full = if a.len() > LCS_MAX_LINES || b.len() > LCS_MAX_LINES {
        let mut out: Vec<DiffLine> = Vec::new();
        push_marked(&mut out, Op::Del, a.as_slice());
        push_marked(&mut out, Op::Add, b.as_slice());
        assert(rows(out@) == full_rows(file_lines(old@), file_lines(new@)));
        out
    } else {
        script(a.as_slice(), b.as_slice())
    };
    cap(trim_context(full))
}

/// The text under `key` in a tool's input, or nothing.
pub open spec fn input_text(input: JsonV, key: Seq<char>) -> Seq<char> {
    match text_at(input, key) {
        Some(s) => s,
        None => Seq::empty(),
    }
}

/// The file whose content a tool call replaces, which is the "before" of its
/// diff: the `path` of a `write`.
pub fn written_path(tool: &str, input: &Json) -> (r: Option<String>)
    ensures
        match r {
            Some(p) => tool@ == "write"@ && text_at(input@, "path"@) == Some(p@),
            None => tool@ != "write"@ || text_at(input@, "path"@) is None,
        },
{
    if !same(tool, "write") {
        return None;
    }
    match input.text_field("path") {
        Some(p) => Some(p.to_owned()),
        None => None,
    }
}

/// A diff for the card, where the tool is one that changes a file. `before` is
/// the content of the file at [`written_path`], empty where there is none yet.
pub fn for_tool(tool: &str, input: &Json, before: &str) -> (r: Option<Vec<DiffLine>>)
    ensures
        match r {
            Some(d) => {
                ||| tool@ == "edit"@ && rows(d@) == diff_rows(
                    input_text(input@, "old_string"@),
                    input_text(input@, "new_string"@),
                )
                ||| tool@ == "write"@ && text_at(input@, "path"@) is Some && rows(d@)
                    == diff_rows(before@, input_text(input@, "content"@))
            },
            None => tool@ != "edit"@ && (tool@ == "write"@ ==> text_at(input@, "path"@) is None),
        },
{
    proof {
        reveal_strlit("edit");
        reveal_strlit("write");
    }
    if same(tool, "edit") {
        let old = match input.text_field("old_string") {
            Some(s) => s,
            None => "",
        };
        let new = match input.text_field("new_string") {
            Some(s) => s,
            None => "",
        };
        proof {
            reveal_strlit("");
            assert(""@ =~= Seq::<char>::empty());
        }
        Some(unified(old, new))
    } else if same(tool, "write") {
        if input.text_field("path").is_none() {
            return None;
        }
        let content = match input.text_field("content") {
            Some(s) => s,
            None => "",
        };
        proof {
            reveal_strlit("");
            assert(""@ =~= Seq::<char>::empty());
        }
        Some(unified(before, content))
    } else {
        None
    }
}

/// The lines of a script that stand on one side of it: its context and the
/// rows of the kind `op`.
pub open spec fn side(s: Seq<(Op, Seq<char>)>, op: Op) -> Seq<Seq<char>>
    decreases s.len(),
{
    if s.len() == 0 {
        Seq::empty()
    } else if s[0].0 == Op::Ctx || s[0].0 == op {
        seq![s[0].1] + side(s.drop_first(), op)
    } else {
        side(s.drop_first(), op)
    }
}

proof fn side_of_marked(v: Seq<Seq<char>>, op: Op, other: Op)
    requires
        op != Op::Ctx,
        other != Op::Ctx,
        op != other,
    ensures
        side(marked(op, v), op) == v,
        side(marked(op, v), other) == Seq::<Seq<char>>::empty(),
    decreases v.len(),
{
    if v.len() > 0 {
        let m = marked(op, v);
        assert(m.drop_first() == marked(op, v.drop_first()));
        side_of_marked(v.drop_first(), op, other);
        assert(side(m, op) == seq![v[0]] + v.drop_first());
    }
}

proof fn side_of_step(first: (Op, Seq<char>), rest: Seq<(Op, Seq<char>)>, op: Op)
    ensures
        side(seq![first] + rest, op) == (if first.0 == Op::Ctx || first.0 == op {
            seq![first.1] + side(rest, op)
        } else {
            side(rest, op)
        }),
{
    assert((seq![first] + rest).drop_first() == rest);
}

/// An edit script loses nothing: its context and deletions are the old lines,
/// its context and additions the new ones.
pub proof fn edits_read_back(a: Seq<Seq<char>>, b: Seq<Seq<char>>)
    ensures
        side(edits(a, b), Op::Del) == a,
        side(edits(a, b), Op::Add) == b,
    decreases a.len() + b.len(),
{
    if a.len() == 0 {
        side_of_marked(b, Op::Add, Op::Del);
        assert(a == Seq::<Seq<char>>::empty());
    } else if b.len() == 0 {
        side_of_marked(a, Op::Del, Op::Add);
        assert(b == Seq::<Seq<char>>::empty());
    } else if a[0] == b[0] {
        let rest = edits(a.drop_first(), b.drop_first());
        edits_read_back(a.drop_first(), b.drop_first());
        side_of_step((Op::Ctx, a[0]), rest, Op::Del);
        side_of_step((Op::Ctx, a[0]), rest, Op::Add);
        assert(seq![a[0]] + a.drop_first() == a);
        assert(seq![a[0]] + b.drop_first() == b);
    } else if lcs(a.drop_first(), b) >= lcs(a, b.drop_first()) {
        let rest = edits(a.drop_first(), b);
        edits_read_back(a.drop_first(), b);
        side_of_step((Op::Del, a[0]), rest, Op::Del);
        side_of_step((Op::Del, a[0]), rest, Op::Add);
        assert(seq![a[0]] + a.drop_first() == a);
    } else {
        let rest = edits(a, b.drop_first());
        edits_read_back(a, b.drop_first());
        side_of_step((Op::Add, b[0]), rest, Op::Del);
        side_of_step((Op::Add, b[0]), rest, Op::Add);
        assert(seq![b[0]] + b.drop_first() == b);
    }
}

/// The lines that a script keeps as they are.
pub open spec fn unchanged(s: Seq<(Op, Seq<char>)>) -> Seq<Seq<char>> {
    side(s, Op::Ctx)
}

/// `c` can be had from `a` by leaving lines out.
pub open spec fn is_subsequence(c: Seq<Seq<char>>, a: Seq<Seq<char>>) -> bool
    decreases a.len(),
{
    if c.len() == 0 {
        true
    } else if a.len() == 0 {
        false
    } else {
        ||| c[0] == a[0] && is_subsequence(c.drop_first(), a.drop_first())
        ||| is_subsequence(c, a.drop_first())
    }
}

proof fn subsequence_of_tail(c: Seq<Seq<char>>, a: Seq<Seq<char>>)
    requires
        a.len() > 0,
        c.len() > 0,
        is_subsequence(c, a),
    ensures
        is_subsequence(c.drop_first(), a.drop_first()),
    decreases a.len(),
{
    if c[0] == a[0] && is_subsequence(c.drop_first(), a.drop_first()) {
    } else {
        subsequence_weakens(c, a.drop_first());
    }
}

proof fn subsequence_weakens(c: Seq<Seq<char>>, a: Seq<Seq<char>>)
    requires
        c.len() > 0,
        is_subsequence(c, a),
    ensures
        is_subsequence(c.drop_first(), a),
    decreases a.len(),
{
    if c[0] == a[0] && is_subsequence(c.drop_first(), a.drop_first()) {
        if c.len() > 1 {
            assert(is_subsequence(c.drop_first(), a));
        }
    } else {
        subsequence_weakens(c, a.drop_first());
    }
}

/// No common subsequence of `a` and `b` is longer than [`lcs`] says.
pub proof fn lcs_is_longest(c: Seq<Seq<char>>, a: Seq<Seq<char>>, b: Seq<Seq<char>>)
    requires
        is_subsequence(c, a),
        is_subsequence(c, b),
    ensures
        c.len() <= lcs(a, b),
    decreases a.len() + b.len(),
{
    if c.len() == 0 {
    } else if a[0] == b[0] {
        subsequence_of_tail(c, a);
        subsequence_of_tail(c, b);
        lcs_is_longest(c.drop_first(), a.drop_first(), b.drop_first());
    } else if c[0] == a[0] {
        assert(is_subsequence(c, b.drop_first()));
        lcs_is_longest(c, a, b.drop_first());
    } else {
        assert(is_subsequence(c, a.drop_first()));
        lcs_is_longest(c, a.drop_first(), b);
    }
}

proof fn side_of_marked_ctx(v: Seq<Seq<char>>, op: Op)
    requires
        op != Op::Ctx,
    ensures
        side(marked(op, v), Op::Ctx) == Seq::<Seq<char>>::empty(),
    decreases v.len(),
{
    if v.len() > 0 {
        assert(marked(op, v).drop_first() == marked(op, v.drop_first()));
        side_of_marked_ctx(v.drop_first(), op);
    }
}

/// An edit script is minimal: what it keeps is common to both files, and no
/// common subsequence of the two is longer.
pub proof fn edits_keep_the_most(a: Seq<Seq<char>>, b: Seq<Seq<char>>)
    ensures
        unchanged(edits(a, b)).len() == lcs(a, b),
        is_subsequence(unchanged(edits(a, b)), a),
        is_subsequence(unchanged(edits(a, b)), b),
    decreases a.len() + b.len(),
{
    if a.len() == 0 {
        side_of_marked_ctx(b, Op::Add);
    } else if b.len() == 0 {
        side_of_marked_ctx(a, Op::Del);
    } else if a[0] == b[0] {
        let rest = edits(a.drop_first(), b.drop_first());
        edits_keep_the_most(a.drop_first(), b.drop_first());
        side_of_step((Op::Ctx, a[0]), rest, Op::Ctx);
        let kept = seq![a[0]] + unchanged(rest);
        assert(kept.drop_first() == unchanged(rest));
    } else if lcs(a.drop_first(), b) >= lcs(a, b.drop_first()) {
        let rest = edits(a.drop_first(), b);
        edits_keep_the_most(a.drop_first(), b);
        side_of_step((Op::Del, a[0]), rest, Op::Ctx);
    } else {
        let rest = edits(a, b.drop_first());
        edits_keep_the_most(a, b.drop_first());
        side_of_step((Op::Add, b[0]), rest, Op::Ctx);
    }
}

proof fn edits_of_equal(a: Seq<Seq<char>>)
    ensures
        edits(a, a) == marked(Op::Ctx, a),
    decreases a.len(),
{
    if a.len() == 0 {
        assert(edits(a, a) == marked(Op::Ctx, a));
    } else {
        edits_of_equal(a.drop_first());
        assert(seq![(Op::Ctx, a[0])] + marked(Op::Ctx, a.drop_first()) == marked(Op::Ctx, a));
    }
}

proof fn no_change_keeps_nothing(s: Seq<(Op, Seq<char>)>, n: int)
    requires
        0 <= n <= s.len(),
        forall|k: int| 0 <= k < s.len() ==> (#[trigger] s[k]).0 == Op::Ctx,
    ensures
        kept_rows(s, n) == Seq::<(Op, Seq<char>)>::empty(),
    decreases n,
{
    if n > 0 {
        no_change_keeps_nothing(s, n - 1);
    }
}

/// An unchanged file of at most [`LCS_MAX_LINES`] lines yields no rows.
pub proof fn unchanged_yields_no_rows(text: Seq<char>)
    requires
        file_lines(text).len() <= LCS_MAX_LINES,
    ensures
        diff_rows(text, text) == Seq::<(Op, Seq<char>)>::empty(),
{
    let a = file_lines(text);
    edits_of_equal(a);
    no_change_keeps_nothing(edits(a, a), edits(a, a).len() as int);
}

/// A diff shows at most [`MAX_DIFF_LINES`] rows of content, and a trailer
/// stands at most once, after that many.
pub proof fn diffs_are_bounded(old: Seq<char>, new: Seq<char>)
    ensures
        diff_rows(old, new).len() <= MAX_DIFF_LINES + 1,
        forall|i: int|
            0 <= i < diff_rows(old, new).len() && (#[trigger] diff_rows(old, new)[i]).0
                == Op::Trailer ==> i == MAX_DIFF_LINES,
{
    let full = full_rows(file_lines(old), file_lines(new));
    edits_have_no_trailer(file_lines(old), file_lines(new));
    kept_are_rows(full, full.len() as int);
    let t = trimmed_rows(full);
    assert forall|i: int|
        0 <= i < diff_rows(old, new).len() && (#[trigger] diff_rows(old, new)[i]).0
            == Op::Trailer implies i == MAX_DIFF_LINES by {
        if i < MAX_DIFF_LINES {
            assert(diff_rows(old, new)[i] == t[i]);
            assert(full.contains(t[i]));
        }
    }
}

proof fn edits_have_no_trailer(a: Seq<Seq<char>>, b: Seq<Seq<char>>)
    ensures
        forall|i: int| 0 <= i < edits(a, b).len() ==> (#[trigger] edits(a, b)[i]).0 != Op::Trailer,
    decreases a.len() + b.len(),
{
    if a.len() == 0 || b.len() == 0 {
    } else if a[0] == b[0] {
        edits_have_no_trailer(a.drop_first(), b.drop_first());
    } else if lcs(a.drop_first(), b) >= lcs(a, b.drop_first()) {
        edits_have_no_trailer(a.drop_first(), b);
    } else {
        edits_have_no_trailer(a, b.drop_first());
    }
}

proof fn kept_are_rows(s: Seq<(Op, Seq<char>)>, n: int)
    requires
        0 <= n <= s.len(),
    ensures
        kept_rows(s, n).len() <= n,
        forall|i: int| 0 <= i < kept_rows(s, n).len() ==> s.contains(#[trigger] kept_rows(s, n)[i]),
    decreases n,
{
    if n > 0 {
        kept_are_rows(s, n - 1);
        let k = kept_rows(s, n);
        let p = kept_rows(s, n - 1);
        assert(s.contains(s[n - 1]));
        assert forall|i: int| 0 <= i < k.len() implies s.contains(#[trigger] k[i]) by {
            if i < p.len() {
                assert(k[i] == p[i]);
            }
        }
    }
}

/// The rows of a script that change something.
pub open spec fn changes(s: Seq<(Op, Seq<char>)>) -> Seq<(Op, Seq<char>)> {
    s.filter(|r: (Op, Seq<char>)| r.0 != Op::Ctx)
}

/// Trimming drops context only: every change stays, in its order.
pub proof fn trimming_keeps_changes(s: Seq<(Op, Seq<char>)>)
    ensures
        changes(trimmed_rows(s)) == changes(s),
{
    kept_changes(s, s.len() as int);
    assert(s.take(s.len() as int) == s);
}

proof fn kept_changes(s: Seq<(Op, Seq<char>)>, n: int)
    requires
        0 <= n <= s.len(),
    ensures
        changes(kept_rows(s, n)) == changes(s.take(n)),
    decreases n,
{
    reveal(Seq::filter);
    if n > 0 {
        kept_changes(s, n - 1);
        assert(s.take(n).drop_last() == s.take(n - 1));
        let k = kept_rows(s, n);
        let p = kept_rows(s, n - 1);
        if s[n - 1].0 != Op::Ctx || near_change(s, n - 1) {
            assert(k.drop_last() == p);
        }
    } else {
        assert(kept_rows(s, n) == s.take(n));
    }
}

/// The card shows the diff from its first row on: all of it up to forty rows, and
/// of a longer one the first forty, in their order, with a count of those that
/// follow.
pub proof fn the_first_rows_are_shown(old: Seq<char>, new: Seq<char>)
    ensures
        ({
            let all = trimmed_rows(full_rows(file_lines(old), file_lines(new)));
            let shown = diff_rows(old, new);
            &&& all.len() <= 40 ==> shown == all
            &&& all.len() > 40 ==> {
                &&& shown.len() == 41
                &&& forall|i: int| 0 <= i < 40 ==> #[trigger] shown[i] == all[i]
                &&& shown[40].0 == Op::Trailer
                &&& shown[40].1 == "[+"@ + crate::text::decimal_of((all.len() - 40) as nat)
                    + " more lines]"@
            }
        }),
{
}

/// A row of a script is left out exactly where no change stands within three
/// rows of it; the others stay in their order.
pub proof fn three_lines_of_context_are_kept(s: Seq<(Op, Seq<char>)>)
    ensures
        trimmed_rows(s) == Seq::new(s.len(), |i: int| i).filter(
            |i: int|
                exists|k: int|
                    0 <= k < s.len() && i - 3 <= k <= i + 3 && (#[trigger] s[k]).0 != Op::Ctx,
        ).map_values(|i: int| s[i]),
{
    let near = |i: int|
        exists|k: int| 0 <= k < s.len() && i - 3 <= k <= i + 3 && (#[trigger] s[k]).0 != Op::Ctx;
    kept_near(s, s.len() as int, near);
}

proof fn kept_near(s: Seq<(Op, Seq<char>)>, n: int, near: spec_fn(int) -> bool)
    requires
        0 <= n <= s.len(),
        forall|i: int|
            #[trigger] near(i) == (exists|k: int|
                0 <= k < s.len() && i - 3 <= k <= i + 3 && (#[trigger] s[k]).0 != Op::Ctx),
    ensures
        kept_rows(s, n) == Seq::new(n as nat, |i: int| i).filter(near).map_values(|i: int| s[i]),
    decreases n,
{
    reveal(Seq::filter);
    let at = Seq::new(n as nat, |i: int| i);
    if n > 0 {
        let before = Seq::new((n - 1) as nat, |i: int| i);
        kept_near(s, n - 1, near);
        assert(at.drop_last() =~= before);
        assert(at.last() == n - 1);
        assert(near(n - 1) == near_change(s, n - 1));
        if s[n - 1].0 != Op::Ctx {
            assert(near_change(s, n - 1));
        }
        assert(kept_rows(s, n) =~= at.filter(near).map_values(|i: int| s[i]));
    } else {
        assert(kept_rows(s, n) =~= at.filter(near).map_values(|i: int| s[i]));
    }
}

proof fn side_of_sum(a: Seq<(Op, Seq<char>)>, b: Seq<(Op, Seq<char>)>, op: Op)
    ensures
        side(a + b, op) == side(a, op) + side(b, op),
    decreases a.len(),
{
    if a.len() == 0 {
        assert(a + b =~= b);
        assert(side(a, op) + side(b, op) =~= side(b, op));
    } else {
        side_of_sum(a.drop_first(), b, op);
        assert((a + b).drop_first() =~= a.drop_first() + b);
        assert(side(a + b, op) =~= side(a, op) + side(b, op));
    }
}

/// Before it is trimmed, a diff loses nothing, however long the files are: its
/// context and deletions are the old file's lines, its context and additions the
/// new one's.
pub proof fn diffs_lose_no_line(old: Seq<char>, new: Seq<char>)
    ensures
        side(full_rows(file_lines(old), file_lines(new)), Op::Del) == file_lines(old),
        side(full_rows(file_lines(old), file_lines(new)), Op::Add) == file_lines(new),
{
    let a = file_lines(old);
    let b = file_lines(new);
    if a.len() > LCS_MAX_LINES || b.len() > LCS_MAX_LINES {
        side_of_marked(a, Op::Del, Op::Add);
        side_of_marked(b, Op::Add, Op::Del);
        side_of_sum(marked(Op::Del, a), marked(Op::Add, b), Op::Del);
        side_of_sum(marked(Op::Del, a), marked(Op::Add, b), Op::Add);
        assert(a + Seq::<Seq<char>>::empty() =~= a);
        assert(Seq::<Seq<char>>::empty() + b =~= b);
    } else {
        edits_read_back(a, b);
    }
}

/// Lines joined with line feeds are the file again, but for a line feed at its
/// end; no line holds one.
pub proof fn lines_make_the_file(text: Seq<char>)
    ensures
        crate::text::joined(file_lines(text), seq!['\n']) == (if text.len() > 0 && text.last()
            == '\n' {
            text.drop_last()
        } else {
            text
        }),
        forall|i: int, j: int|
            0 <= i < file_lines(text).len() && 0 <= j < file_lines(text)[i].len()
                ==> #[trigger] file_lines(text)[i][j] != '\n',
{
    let p = crate::text::pieces(text, '\n');
    crate::text::pieces_shape(text, '\n');
    crate::text::joined_pieces(text, '\n');
    if text.len() > 0 {
        let t = text.drop_last();
        crate::text::joined_pieces(t, '\n');
        crate::text::pieces_shape(t, '\n');
        if text.last() == '\n' {
            assert(p.drop_last() =~= crate::text::pieces(t, '\n'));
            assert(p.last().len() == 0);
        } else {
            assert(p.last().len() > 0);
        }
    } else {
        assert(p.drop_last().len() == 0);
        assert(crate::text::joined(p.drop_last(), seq!['\n']) =~= text);
    }
    assert forall|i: int, j: int|
        0 <= i < file_lines(text).len() && 0 <= j < file_lines(text)[i].len() implies
        #[trigger] file_lines(text)[i][j] != '\n' by {
        assert(file_lines(text)[i] == p[i]);
        assert(p[i][j] != '\n');
    }
}

/// Files without a common line: the old one goes out whole, and after it the new
/// one comes in whole.
pub proof fn replacements_delete_first(a: Seq<Seq<char>>, b: Seq<Seq<char>>, i: int)
    requires
        forall|x: int, y: int|
            0 <= x < a.len() && 0 <= y < b.len() ==> #[trigger] a[x] != #[trigger] b[y],
        0 <= i < a.len() + b.len(),
    ensures
        full_rows(a, b).len() == a.len() + b.len(),
        full_rows(a, b)[i] == (if i < a.len() {
            (Op::Del, a[i])
        } else {
            (Op::Add, b[i - a.len()])
        }),
{
    edits_of_disjoint(a, b);
}

proof fn nothing_in_common(a: Seq<Seq<char>>, b: Seq<Seq<char>>)
    requires
        forall|x: int, y: int|
            0 <= x < a.len() && 0 <= y < b.len() ==> #[trigger] a[x] != #[trigger] b[y],
    ensures
        lcs(a, b) == 0,
    decreases a.len() + b.len(),
{
    if a.len() > 0 && b.len() > 0 {
        nothing_in_common(a.drop_first(), b);
        nothing_in_common(a, b.drop_first());
    }
}

proof fn edits_of_disjoint(a: Seq<Seq<char>>, b: Seq<Seq<char>>)
    requires
        forall|x: int, y: int|
            0 <= x < a.len() && 0 <= y < b.len() ==> #[trigger] a[x] != #[trigger] b[y],
    ensures
        edits(a, b) == marked(Op::Del, a) + marked(Op::Add, b),
    decreases a.len(),
{
    if a.len() == 0 {
        assert(edits(a, b) =~= marked(Op::Del, a) + marked(Op::Add, b));
    } else if b.len() == 0 {
        assert(edits(a, b) =~= marked(Op::Del, a) + marked(Op::Add, b));
    } else {
        nothing_in_common(a.drop_first(), b);
        nothing_in_common(a, b.drop_first());
        edits_of_disjoint(a.drop_first(), b);
        assert(edits(a, b) =~= marked(Op::Del, a) + marked(Op::Add, b));
    }
}

/// A tool's text is what stands under its name, and nothing where there is none.
pub proof fn inputs_are_read_by_name(input: JsonV, key: Seq<char>)
    ensures
        text_at(input, key) matches Some(t) ==> input_text(input, key) == t,
        text_at(input, key) is None ==> input_text(input, key).len() == 0,
{
}

} // verus!
