//! Text primitives: the views of `str` and `String` are sequences of `char`,
//! and every function here is stated over those sequences.
use vstd::prelude::*;
use vstd::string::*;

verus! {

broadcast use vstd::string::group_string_axioms;

/// `String::push`: appends one `char` to the end.
pub assume_specification[ String::push ](s: &mut String, c: char)
    ensures
        final(s)@ == old(s)@.push(c),
;

/// The views of a sequence of strings.
pub open spec fn texts(v: Seq<String>) -> Seq<Seq<char>> {
    Seq::new(v.len(), |i: int| v[i]@)
}

/// The view of an optional string.
pub open spec fn opt_text(o: Option<String>) -> Option<Seq<char>> {
    match o {
        Some(s) => Some(s@),
        None => None,
    }
}

/// The view of an optional borrowed string.
pub open spec fn opt_str(o: Option<&str>) -> Option<Seq<char>> {
    match o {
        Some(s) => Some(s@),
        None => None,
    }
}

/// The characters of `s`, one by one.
pub fn to_chars(s: &str) -> (r: Vec<char>)
    ensures
        r@ == s@,
{
    let mut out: Vec<char> = Vec::new();
    for c in it: s.chars()
        invariant
            it.seq() == s@,
            out@ == s@.take(it.index() as int),
    {
        out.push(c);
    }
    out
}

/// Whether two texts hold the same characters.
pub fn same(a: &str, b: &str) -> (r: bool)
    ensures
        r == (a@ == b@),
{
    let x = a.as_bytes();
    let y = b.as_bytes();
    proof {
        vstd::utf8::encode_utf8_decode_utf8(a@);
        vstd::utf8::encode_utf8_decode_utf8(b@);
    }
    if x.len() != y.len() {
        return false;
    }
    let mut i: usize = 0;
    while i < x.len()
        invariant
            x@ == a.spec_bytes(),
            y@ == b.spec_bytes(),
            x.len() == y.len(),
            0 <= i <= x.len(),
            x@.take(i as int) == y@.take(i as int),
        decreases x.len() - i,
    {
        if x[i] != y[i] {
            assert(x@ != y@);
            return false;
        }
        assert(x@.take(i + 1) == x@.take(i as int).push(x@[i as int]));
        assert(y@.take(i + 1) == y@.take(i as int).push(y@[i as int]));
        i = i + 1;
    }
    assert(x@.take(i as int) == x@);
    assert(y@.take(i as int) == y@);
    true
}

/// Unicode's `White_Space` property, which `str::trim` goes by.
pub open spec fn is_space(c: char) -> bool {
    let n = c as u32;
    ||| 0x09 <= n <= 0x0D
    ||| n == 0x20
    ||| n == 0x85
    ||| n == 0xA0
    ||| n == 0x1680
    ||| 0x2000 <= n <= 0x200A
    ||| n == 0x2028
    ||| n == 0x2029
    ||| n == 0x202F
    ||| n == 0x205F
    ||| n == 0x3000
}

/// Decides [`is_space`].
pub fn space(c: char) -> (r: bool)
    ensures
        r == is_space(c),
{
    let n: u32 = c as u32;
    (0x09 <= n && n <= 0x0D) || n == 0x20 || n == 0x85 || n == 0xA0 || n == 0x1680 || (0x2000 <= n
        && n <= 0x200A) || n == 0x2028 || n == 0x2029 || n == 0x202F || n == 0x205F || n == 0x3000
}

/// `s` without its leading white space.
pub open spec fn trim_front(s: Seq<char>) -> Seq<char>
    decreases s.len(),
{
    if s.len() > 0 && is_space(s[0]) {
        trim_front(s.drop_first())
    } else {
        s
    }
}

/// `s` without its trailing white space.
pub open spec fn trim_back(s: Seq<char>) -> Seq<char>
    decreases s.len(),
{
    if s.len() > 0 && is_space(s.last()) {
        trim_back(s.drop_last())
    } else {
        s
    }
}

/// `s` without white space at either end.
pub open spec fn trimmed(s: Seq<char>) -> Seq<char> {
    trim_back(trim_front(s))
}

/// `str::trim_end`.
pub fn trim_end(s: &str) -> (r: &str)
    ensures
        r@ == trim_back(s@),
{
    let v = to_chars(s);
    let mut j: usize = v.len();
    assert(s@.subrange(0, j as int) == s@);
    while j > 0 && space(v[j - 1])
        invariant
            v@ == s@,
            0 <= j <= v.len(),
            trim_back(s@.subrange(0, j as int)) == trim_back(s@),
        decreases j,
    {
        assert(s@.subrange(0, j as int).drop_last() == s@.subrange(0, j - 1));
        j = j - 1;
    }
    s.substring_char(0, j)
}

/// `str::trim`.
pub fn trim(s: &str) -> (r: &str)
    ensures
        r@ == trimmed(s@),
{
    let v = to_chars(s);
    let n: usize = v.len();
    let mut i: usize = 0;
    assert(s@.subrange(0, n as int) == s@);
    while i < n && space(v[i])
        invariant
            v@ == s@,
            n == v.len(),
            0 <= i <= n,
            trim_front(s@.subrange(i as int, n as int)) == trim_front(s@),
        decreases n - i,
    {
        assert(s@.subrange(i as int, n as int).drop_first() == s@.subrange(i + 1, n as int));
        i = i + 1;
    }
    let mut j: usize = n;
    while j > i && space(v[j - 1])
        invariant
            v@ == s@,
            n == v.len(),
            0 <= i <= j <= n,
            trim_back(s@.subrange(i as int, j as int)) == trim_back(s@.subrange(i as int, n as int)),
        decreases j,
    {
        assert(s@.subrange(i as int, j as int).drop_last() == s@.subrange(i as int, j - 1));
        j = j - 1;
    }
    s.substring_char(i, j)
}

/// Trimming leaves nothing exactly when every character is white space.
pub proof fn blank_is_all_space(s: Seq<char>)
    ensures
        trimmed(s).len() == 0 <==> (forall|i: int| 0 <= i < s.len() ==> is_space(#[trigger] s[i])),
{
    front_shape(s);
    back_shape(trim_front(s));
    let f = trim_front(s);
    if trimmed(s).len() == 0 {
        if f.len() > 0 {
            assert(is_space(f[0]));
        }
        assert forall|i: int| 0 <= i < s.len() implies is_space(#[trigger] s[i]) by {}
    }
}

/// What [`trim_front`] takes off is white space, and what is left starts with
/// something else.
pub proof fn front_shape(s: Seq<char>)
    ensures
        trim_front(s).len() <= s.len(),
        trim_front(s) == s.skip(s.len() - trim_front(s).len()),
        forall|i: int|
            0 <= i < s.len() - trim_front(s).len() ==> is_space(#[trigger] s[i]),
        trim_front(s).len() > 0 ==> !is_space(trim_front(s)[0]),
    decreases s.len(),
{
    if s.len() > 0 && is_space(s[0]) {
        front_shape(s.drop_first());
        let t = s.drop_first();
        assert forall|i: int| 0 <= i < s.len() - trim_front(s).len() implies is_space(
            #[trigger] s[i],
        ) by {
            if i > 0 {
                assert(is_space(t[i - 1]));
            }
        }
    }
}

/// What [`trim_back`] takes off is white space, and what is left ends with
/// something else.
pub proof fn back_shape(s: Seq<char>)
    ensures
        trim_back(s).len() <= s.len(),
        trim_back(s) == s.take(trim_back(s).len() as int),
        forall|i: int| trim_back(s).len() <= i < s.len() ==> is_space(#[trigger] s[i]),
        trim_back(s).len() > 0 ==> !is_space(trim_back(s).last()),
    decreases s.len(),
{
    if s.len() > 0 && is_space(s.last()) {
        back_shape(s.drop_last());
        let t = s.drop_last();
        assert forall|i: int| trim_back(s).len() <= i < s.len() implies is_space(
            #[trigger] s[i],
        ) by {
            if i < s.len() - 1 {
                assert(is_space(t[i]));
            }
        }
    }
}

/// Whether `s` is empty once trimmed.
pub fn blank(s: &str) -> (r: bool)
    ensures
        r == (trimmed(s@).len() == 0),
{
    trim(s).is_empty()
}

/// `s` starts with `p`.
pub open spec fn has_prefix(s: Seq<char>, p: Seq<char>) -> bool {
    s.len() >= p.len() && s.take(p.len() as int) == p
}

/// `s` ends with `p`.
pub open spec fn has_suffix(s: Seq<char>, p: Seq<char>) -> bool {
    s.len() >= p.len() && s.skip(s.len() - p.len()) == p
}

/// The rest of `s` after the prefix `p`, where it has it.
pub fn strip_prefix<'a>(s: &'a str, p: &str) -> (r: Option<&'a str>)
    ensures
        r is Some == has_prefix(s@, p@),
        r is Some ==> r->0@ == s@.skip(p@.len() as int),
{
    let n: usize = s.unicode_len();
    let m: usize = p.unicode_len();
    if n < m {
        return None;
    }
    let head = s.substring_char(0, m);
    if same(head, p) {
        let tail = s.substring_char(m, n);
        assert(s@.subrange(m as int, n as int) == s@.skip(m as int));
        assert(s@.subrange(0, m as int) == s@.take(m as int));
        Some(tail)
    } else {
        assert(s@.subrange(0, m as int) == s@.take(m as int));
        None
    }
}

/// The part of `s` before the suffix `p`, where it has it.
pub fn strip_suffix<'a>(s: &'a str, p: &str) -> (r: Option<&'a str>)
    ensures
        r is Some == has_suffix(s@, p@),
        r is Some ==> r->0@ == s@.take(s@.len() - p@.len()),
{
    let n: usize = s.unicode_len();
    let m: usize = p.unicode_len();
    if n < m {
        return None;
    }
    let tail = s.substring_char(n - m, n);
    assert(s@.subrange(n - m, n as int) == s@.skip(n - m));
    if same(tail, p) {
        let head = s.substring_char(0, n - m);
        assert(s@.subrange(0, n - m) == s@.take(n - m));
        Some(head)
    } else {
        None
    }
}

/// `str::starts_with` on a text.
pub fn starts_with(s: &str, p: &str) -> (r: bool)
    ensures
        r == has_prefix(s@, p@),
{
    strip_prefix(s, p).is_some()
}

/// `str::ends_with` on a text.
pub fn ends_with(s: &str, p: &str) -> (r: bool)
    ensures
        r == has_suffix(s@, p@),
{
    strip_suffix(s, p).is_some()
}

/// Where `c` first stands in `s`, counted in characters.
pub open spec fn first_index(s: Seq<char>, c: char) -> Option<int>
    decreases s.len(),
{
    if s.len() == 0 {
        None
    } else if s[0] == c {
        Some(0)
    } else {
        match first_index(s.drop_first(), c) {
            Some(i) => Some(i + 1),
            None => None,
        }
    }
}

/// [`first_index`] is the least index at which `c` stands.
pub proof fn first_index_shape(s: Seq<char>, c: char)
    ensures
        match first_index(s, c) {
            Some(i) => 0 <= i < s.len() && s[i] == c && (forall|j: int|
                0 <= j < i ==> #[trigger] s[j] != c),
            None => forall|j: int| 0 <= j < s.len() ==> #[trigger] s[j] != c,
        },
    decreases s.len(),
{
    if s.len() > 0 && s[0] != c {
        let t = s.drop_first();
        first_index_shape(t, c);
        match first_index(s, c) {
            Some(i) => {
                assert forall|j: int| 0 <= j < i implies #[trigger] s[j] != c by {
                    if j > 0 {
                        assert(t[j - 1] != c);
                    }
                }
            },
            None => {
                assert forall|j: int| 0 <= j < s.len() implies #[trigger] s[j] != c by {
                    if j > 0 {
                        assert(t[j - 1] != c);
                    }
                }
            },
        }
    }
}

/// An index with the shape of the first occurrence is the first occurrence.
pub proof fn first_index_is(s: Seq<char>, c: char, i: int)
    requires
        0 <= i < s.len(),
        s[i] == c,
        forall|j: int| 0 <= j < i ==> #[trigger] s[j] != c,
    ensures
        first_index(s, c) == Some(i),
{
    first_index_shape(s, c);
    match first_index(s, c) {
        Some(k) => {
            if k < i {
                assert(s[k] != c);
            }
            if i < k {
                assert(s[i] != c);
            }
        },
        None => {
            assert(s[i] != c);
        },
    }
}

/// `str::find` on one character, counted in characters.
pub fn find_char(s: &str, c: char) -> (r: Option<usize>)
    ensures
        match r {
            Some(i) => first_index(s@, c) == Some(i as int) && i < s@.len(),
            None => first_index(s@, c) is None,
        },
{
    let v = to_chars(s);
    let mut i: usize = 0;
    while i < v.len()
        invariant
            v@ == s@,
            0 <= i <= v.len(),
            forall|j: int| 0 <= j < i ==> #[trigger] s@[j] != c,
        decreases v.len() - i,
    {
        if v[i] == c {
            proof {
                first_index_is(s@, c, i as int);
            }
            return Some(i);
        }
        i = i + 1;
    }
    proof {
        first_index_shape(s@, c);
    }
    None
}

/// The text before and after the first `c`, where there is one.
pub open spec fn cut(s: Seq<char>, c: char) -> Option<(Seq<char>, Seq<char>)> {
    match first_index(s, c) {
        Some(i) => Some((s.take(i), s.skip(i + 1))),
        None => None,
    }
}

/// `str::split_once` on one character.
pub fn split_once<'a>(s: &'a str, c: char) -> (r: Option<(&'a str, &'a str)>)
    ensures
        match r {
            Some((a, b)) => cut(s@, c) == Some((a@, b@)),
            None => cut(s@, c) is None,
        },
{
    match find_char(s, c) {
        Some(i) => {
            let n: usize = s.unicode_len();
            let a = s.substring_char(0, i);
            let b = s.substring_char(i + 1, n);
            assert(a@ == s@.take(i as int));
            assert(b@ == s@.skip(i + 1));
            Some((a, b))
        },
        None => None,
    }
}

/// The pieces of `s` between the occurrences of `c`: one more than there are
/// occurrences.
pub open spec fn pieces(s: Seq<char>, c: char) -> Seq<Seq<char>>
    decreases s.len(),
{
    if s.len() == 0 {
        seq![Seq::<char>::empty()]
    } else {
        let p = pieces(s.drop_last(), c);
        if s.last() == c {
            p.push(Seq::empty())
        } else {
            p.drop_last().push(p.last().push(s.last()))
        }
    }
}

/// There is always a piece, and no piece holds the separator.
pub proof fn pieces_shape(s: Seq<char>, c: char)
    ensures
        pieces(s, c).len() >= 1,
        forall|i: int, j: int|
            0 <= i < pieces(s, c).len() && 0 <= j < pieces(s, c)[i].len()
                ==> #[trigger] pieces(s, c)[i][j] != c,
    decreases s.len(),
{
    if s.len() > 0 {
        pieces_shape(s.drop_last(), c);
        let p = pieces(s.drop_last(), c);
        let q = pieces(s, c);
        assert forall|i: int, j: int| 0 <= i < q.len() && 0 <= j < q[i].len() implies
            #[trigger] q[i][j] != c by {
            if i < q.len() - 1 {
                assert(q[i] == p[i]);
                assert(p[i][j] != c);
            } else if s.last() != c {
                assert(q[i] == p.last().push(s.last()));
                if j < p.last().len() {
                    assert(p[p.len() - 1][j] != c);
                }
            }
        }
    }
}

/// A separator between two texts separates their pieces.
pub proof fn pieces_concat(x: Seq<char>, c: char, y: Seq<char>)
    ensures
        pieces(x.push(c) + y, c) == pieces(x, c) + pieces(y, c),
    decreases y.len(),
{
    let whole = x.push(c) + y;
    if y.len() == 0 {
        assert(whole =~= x.push(c));
        assert(x.push(c).drop_last() =~= x);
        assert(pieces(whole, c) =~= pieces(x, c) + pieces(y, c));
    } else {
        let z = y.drop_last();
        pieces_concat(x, c, z);
        pieces_shape(z, c);
        assert(whole.drop_last() =~= x.push(c) + z);
        assert(whole.last() == y.last());
        assert(pieces(whole, c) =~= pieces(x, c) + pieces(y, c));
    }
}

/// `str::split` on one character.
pub fn split(s: &str, c: char) -> (r: Vec<String>)
    ensures
        texts(r@) == pieces(s@, c),
{
    let v = to_chars(s);
    let mut out: Vec<String> = Vec::new();
    let mut cur = String::new();
    let mut i: usize = 0;
    while i < v.len()
        invariant
            v@ == s@,
            0 <= i <= v.len(),
            texts(out@).push(cur@) == pieces(s@.take(i as int), c),
        decreases v.len() - i,
    {
        let ghost before = texts(out@).push(cur@);
        assert(s@.take(i + 1).drop_last() == s@.take(i as int));
        assert(before.drop_last() == texts(out@));
        if v[i] == c {
            let ghost o = out@;
            out.push(cur);
            assert(texts(out@) == before);
            cur = String::new();
        } else {
            cur.push(v[i]);
        }
        i = i + 1;
    }
    assert(s@.take(i as int) == s@);
    let ghost o = out@;
    let ghost whole = texts(out@).push(cur@);
    out.push(cur);
    assert(texts(out@) == whole);
    out
}

/// `parts` with `sep` between neighbours.
pub open spec fn joined(parts: Seq<Seq<char>>, sep: Seq<char>) -> Seq<char>
    decreases parts.len(),
{
    if parts.len() == 0 {
        Seq::empty()
    } else if parts.len() == 1 {
        parts[0]
    } else {
        joined(parts.drop_last(), sep) + sep + parts.last()
    }
}

/// `slice::join` on texts.
pub fn join(parts: &[String], sep: &str) -> (r: String)
    ensures
        r@ == joined(texts(parts@), sep@),
{
    let mut out = String::new();
    let mut i: usize = 0;
    assert(texts(parts@).take(0) == Seq::<Seq<char>>::empty());
    while i < parts.len()
        invariant
            0 <= i <= parts.len(),
            out@ == joined(texts(parts@).take(i as int), sep@),
        decreases parts.len() - i,
    {
        let ghost t = texts(parts@);
        assert(t.take(i + 1).drop_last() == t.take(i as int));
        if i > 0 {
            out.append(sep);
        }
        out.append(parts[i].as_str());
        i = i + 1;
    }
    assert(texts(parts@).take(i as int) == texts(parts@));
    out
}

/// Joining the pieces with the separator gives the text back.
pub proof fn joined_pieces(s: Seq<char>, c: char)
    ensures
        joined(pieces(s, c), seq![c]) == s,
    decreases s.len(),
{
    if s.len() > 0 {
        let t = s.drop_last();
        let p = pieces(t, c);
        let q = pieces(s, c);
        joined_pieces(t, c);
        pieces_shape(t, c);
        if s.last() == c {
            assert(q.drop_last() == p);
            assert(joined(q, seq![c]) == t + seq![c] + Seq::<char>::empty());
            assert(s == t.push(c));
        } else {
            assert(q.drop_last() == p.drop_last());
            assert(q.last() == p.last().push(s.last()));
            if p.len() == 1 {
                assert(joined(q, seq![c]) == t.push(s.last()));
            } else {
                assert(joined(q, seq![c]) == joined(p.drop_last(), seq![c]) + seq![c] + q.last());
                assert(joined(q, seq![c]) == t.push(s.last()));
            }
            assert(s == t.push(s.last()));
        }
    }
}

/// The lines of a text: the pieces between line feeds, each without one
/// trailing carriage return where a line feed ended it, and with no empty line
/// after the last line feed.
pub open spec fn lines_of(s: Seq<char>) -> Seq<Seq<char>> {
    let p = pieces(s, '\n');
    let whole = Seq::new((p.len() - 1) as nat, |i: int| drop_cr(p[i]));
    if p.last().len() == 0 {
        whole
    } else {
        whole.push(p.last())
    }
}

/// A line without its trailing carriage return.
pub open spec fn drop_cr(line: Seq<char>) -> Seq<char> {
    if line.len() > 0 && line.last() == '\r' {
        line.drop_last()
    } else {
        line
    }
}

/// `str::lines`.
pub fn lines(s: &str) -> (r: Vec<String>)
    ensures
        texts(r@) == lines_of(s@),
{
    let mut p = split(s, '\n');
    proof {
        pieces_shape(s@, '\n');
        assert(texts(p@).len() >= 1);
    }
    let ghost all = pieces(s@, '\n');
    let n: usize = p.len() - 1;
    let mut out: Vec<String> = Vec::new();
    let mut i: usize = 0;
    while i < n
        invariant
            n == p.len() - 1,
            texts(p@) == all,
            0 <= i <= n,
            texts(out@) == Seq::new(i as nat, |k: int| drop_cr(all[k])),
        decreases n - i,
    {
        let line = &p[i];
        assert(line@ == all[i as int]);
        let v = to_chars(line.as_str());
        let cut: usize = if v.len() > 0 && v[v.len() - 1] == '\r' {
            v.len() - 1
        } else {
            v.len()
        };
        let kept = line.as_str().substring_char(0, cut);
        assert(kept@ == drop_cr(all[i as int]));
        let ghost o = texts(out@);
        out.push(kept.to_owned());
        assert(texts(out@) == o.push(drop_cr(all[i as int])));
        i = i + 1;
    }
    let last = p[n].clone();
    assert(last@ == all.last());
    let ghost o = texts(out@);
    if !last.as_str().is_empty() {
        out.push(last);
        assert(texts(out@) == o.push(all.last()));
    }
    out
}

/// Whether `c` is an ASCII digit.
pub open spec fn is_digit(c: char) -> bool {
    '0' <= c <= '9'
}

/// The number that a digit stands for.
pub open spec fn digit_value(c: char) -> nat {
    (c as u32 - 48) as nat
}

/// The number that a run of digits stands for, most significant first.
pub open spec fn digits_value(s: Seq<char>) -> nat
    decreases s.len(),
{
    if s.len() == 0 {
        0
    } else {
        digits_value(s.drop_last()) * 10 + digit_value(s.last())
    }
}

/// Every character of `s` is a digit.
pub open spec fn all_digits(s: Seq<char>) -> bool {
    forall|i: int| 0 <= i < s.len() ==> is_digit(#[trigger] s[i])
}

/// A longer run of digits stands for no smaller a number.
pub proof fn digits_value_grows(s: Seq<char>, k: int)
    requires
        0 <= k <= s.len(),
    ensures
        digits_value(s.take(k)) <= digits_value(s),
    decreases s.len(),
{
    if k < s.len() {
        let t = s.drop_last();
        digits_value_grows(t, k);
        assert(t.take(k) == s.take(k));
    } else {
        assert(s.take(k) == s);
    }
}

/// The body of an unsigned numeral: what follows an optional plus sign.
pub open spec fn numeral_body(s: Seq<char>) -> Seq<char> {
    if s.len() > 0 && s[0] == '+' {
        s.skip(1)
    } else {
        s
    }
}

/// What `str::parse` makes of `s` for an unsigned type whose largest value is
/// `max`: digits, at least one, after an optional plus sign, and in range.
pub open spec fn parsed_unsigned(s: Seq<char>, max: nat) -> Option<nat> {
    let body = numeral_body(s);
    if body.len() > 0 && all_digits(body) && digits_value(body) <= max {
        Some(digits_value(body))
    } else {
        None
    }
}

/// `str::parse` for an unsigned type whose largest value is `max`.
pub fn parse_unsigned(s: &str, max: u64) -> (r: Option<u64>)
    ensures
        match r {
            Some(n) => parsed_unsigned(s@, max as nat) == Some(n as nat),
            None => parsed_unsigned(s@, max as nat) is None,
        },
{
    let v = to_chars(s);
    let start: usize = if v.len() > 0 && v[0] == '+' {
        1
    } else {
        0
    };
    let ghost body = numeral_body(s@);
    assert(body == s@.skip(start as int));
    if v.len() == start {
        return None;
    }
    let mut acc: u64 = 0;
    let mut i: usize = start;
    assert(body.take(0) == Seq::<char>::empty());
    while i < v.len()
        invariant
            v@ == s@,
            start <= i <= v.len(),
            body == s@.skip(start as int),
            forall|j: int| 0 <= j < i - start ==> is_digit(#[trigger] body[j]),
            acc == digits_value(body.take(i - start)),
            acc <= max,
            body == numeral_body(s@),
        decreases v.len() - i,
    {
        let c = v[i];
        assert(c == body[i - start]);
        if !(c >= '0' && c <= '9') {
            return None;
        }
        let d: u64 = (c as u32 - 48) as u64;
        proof {
            let k = i + 1 - start;
            assert(body.take(k).drop_last() == body.take(i - start));
            assert(digits_value(body.take(k)) == acc * 10 + d);
            digits_value_grows(body, k);
        }
        if acc > (u64::MAX - d) / 10 {
            return None;
        }
        let next: u64 = acc * 10 + d;
        if next > max {
            return None;
        }
        acc = next;
        i = i + 1;
    }
    assert(body.take(i - start) == body);
    Some(acc)
}

/// The digit for a number below ten.
pub open spec fn digit_char(d: nat) -> char {
    (48 + d) as u8 as char
}

/// The decimal numeral of `n`, without leading zeros.
pub open spec fn decimal_of(n: nat) -> Seq<char>
    decreases n,
{
    if n < 10 {
        seq![digit_char(n)]
    } else {
        decimal_of(n / 10).push(digit_char(n % 10))
    }
}

/// The decimal numeral of `n`, as `u64`'s `Display` writes it.
pub fn decimal(n: u64) -> (r: String)
    ensures
        r@ == decimal_of(n as nat),
    decreases n,
{
    if n < 10 {
        let mut s = String::new();
        s.push((48u8 + n as u8) as char);
        s
    } else {
        let mut s = decimal(n / 10);
        s.push((48u8 + (n % 10) as u8) as char);
        s
    }
}

/// A decimal numeral is made of digits and stands for its number.
pub proof fn decimal_reads_back(n: nat)
    ensures
        decimal_of(n).len() >= 1,
        all_digits(decimal_of(n)),
        digits_value(decimal_of(n)) == n,
    decreases n,
{
    if n < 10 {
        let s = decimal_of(n);
        assert(s.drop_last() == Seq::<char>::empty());
        assert(digits_value(s.drop_last()) == 0);
    } else {
        decimal_reads_back(n / 10);
        let s = decimal_of(n);
        assert(s.drop_last() == decimal_of(n / 10));
        assert(digits_value(s) == (n / 10) * 10 + digit_value(s.last()));
        assert forall|i: int| 0 <= i < s.len() implies is_digit(#[trigger] s[i]) by {
            if i < s.len() - 1 {
                assert(is_digit(decimal_of(n / 10)[i]));
            }
        }
    }
}

/// Different numbers have different numerals.
pub proof fn decimal_injective(a: nat, b: nat)
    requires
        decimal_of(a) == decimal_of(b),
    ensures
        a == b,
{
    decimal_reads_back(a);
    decimal_reads_back(b);
}

/// The decimal numeral of a whole number, with a minus sign where it is
/// negative.
pub open spec fn signed_decimal_of(n: int) -> Seq<char> {
    if n < 0 {
        seq!['-'] + decimal_of((-n) as nat)
    } else {
        decimal_of(n as nat)
    }
}

/// The decimal numeral of `n`, as `i64`'s `Display` writes it.
pub fn decimal_signed(n: i64) -> (r: String)
    ensures
        r@ == signed_decimal_of(n as int),
{
    if n < 0 {
        let m: u64 = (-(n as i128)) as u64;
        let mut s = String::new();
        s.push('-');
        s.append(decimal(m).as_str());
        assert(s@ =~= seq!['-'] + decimal_of(m as nat));
        s
    } else {
        decimal(n as u64)
    }
}

/// What `str::parse` makes of `s` for `i64`: digits, at least one, after an
/// optional sign, and in range.
pub open spec fn parsed_signed(s: Seq<char>) -> Option<int> {
    if s.len() > 0 && s[0] == '-' {
        let body = s.skip(1);
        if body.len() > 0 && all_digits(body) && digits_value(body) <= 0x8000_0000_0000_0000 {
            Some(-(digits_value(body) as int))
        } else {
            None
        }
    } else {
        match parsed_unsigned(s, i64::MAX as nat) {
            Some(n) => Some(n as int),
            None => None,
        }
    }
}

/// `str::parse` for `i64`.
pub fn parse_signed(s: &str) -> (r: Option<i64>)
    ensures
        match r {
            Some(n) => parsed_signed(s@) == Some(n as int),
            None => parsed_signed(s@) is None,
        },
{
    let n: usize = s.unicode_len();
    if n > 0 && s.get_char(0) == '-' {
        let body = s.substring_char(1, n);
        assert(body@ =~= s@.skip(1));
        if body.unicode_len() > 0 && body.get_char(0) == '+' {
            assert(!is_digit(body@[0]));
            return None;
        }
        match parse_unsigned(body, 0x8000_0000_0000_0000) {
            Some(m) => {
                let v: i128 = -(m as i128);
                Some(v as i64)
            },
            None => None,
        }
    } else {
        match parse_unsigned(s, i64::MAX as u64) {
            Some(m) => Some(m as i64),
            None => None,
        }
    }
}

/// An ASCII capital's small letter; any other character itself.
pub open spec fn lower_char(c: char) -> char {
    if 'A' <= c <= 'Z' {
        (c as u8 + 32) as u8 as char
    } else {
        c
    }
}

/// `s` with its ASCII capitals made small.
pub open spec fn lowered(s: Seq<char>) -> Seq<char> {
    Seq::new(s.len(), |i: int| lower_char(s[i]))
}

/// `str::to_ascii_lowercase`.
pub fn ascii_lower(s: &str) -> (r: String)
    ensures
        r@ == lowered(s@),
{
    let v = to_chars(s);
    let mut out = String::new();
    let mut i: usize = 0;
    while i < v.len()
        invariant
            v@ == s@,
            0 <= i <= v.len(),
            out@ == lowered(s@).take(i as int),
        decreases v.len() - i,
    {
        let c = v[i];
        let d = if c >= 'A' && c <= 'Z' {
            (c as u8 + 32) as char
        } else {
            c
        };
        out.push(d);
        i = i + 1;
    }
    assert(lowered(s@).take(i as int) == lowered(s@));
    out
}

/// Whether `c` is an ASCII letter or digit.
pub open spec fn is_alnum(c: char) -> bool {
    'a' <= c <= 'z' || 'A' <= c <= 'Z' || '0' <= c <= '9'
}

/// Decides [`is_alnum`].
pub fn alnum(c: char) -> (r: bool)
    ensures
        r == is_alnum(c),
{
    (c >= 'a' && c <= 'z') || (c >= 'A' && c <= 'Z') || (c >= '0' && c <= '9')
}

/// `needle` stands in `s` at `i`.
pub open spec fn occurs_at(s: Seq<char>, needle: Seq<char>, i: int) -> bool {
    0 <= i && i + needle.len() <= s.len() && s.subrange(i, i + needle.len()) == needle
}

/// `needle` stands somewhere in `s`.
pub open spec fn occurs(s: Seq<char>, needle: Seq<char>) -> bool {
    exists|i: int| occurs_at(s, needle, i)
}

/// `str::contains` on a text.
pub fn contains(s: &str, needle: &str) -> (r: bool)
    ensures
        r == occurs(s@, needle@),
{
    let n: usize = s.unicode_len();
    let m: usize = needle.unicode_len();
    if n < m {
        return false;
    }
    let mut i: usize = 0;
    while i <= n - m
        invariant
            n == s@.len(),
            m == needle@.len(),
            m <= n,
            0 <= i <= n - m + 1,
            forall|j: int| 0 <= j < i ==> !occurs_at(s@, needle@, j),
        decreases n - m + 1 - i,
    {
        if same(s.substring_char(i, i + m), needle) {
            assert(occurs_at(s@, needle@, i as int));
            return true;
        }
        if i == usize::MAX {
            return false;
        }
        i = i + 1;
    }
    false
}

/// `a` comes before `b`: at the first character where they differ `a`'s is the
/// smaller one, or `b` goes on where `a` ends. This is how `String`s are
/// ordered.
pub open spec fn precedes(a: Seq<char>, b: Seq<char>) -> bool
    decreases a.len(),
{
    if b.len() == 0 {
        false
    } else if a.len() == 0 {
        true
    } else if a[0] != b[0] {
        a[0] < b[0]
    } else {
        precedes(a.drop_first(), b.drop_first())
    }
}

/// Whether a text comes before another.
pub fn comes_before(a: &str, b: &str) -> (r: bool)
    ensures
        r == precedes(a@, b@),
{
    let x = to_chars(a);
    let y = to_chars(b);
    let mut i: usize = 0;
    assert(a@.skip(0) =~= a@);
    assert(b@.skip(0) =~= b@);
    while i < x.len() && i < y.len()
        invariant
            x@ == a@,
            y@ == b@,
            0 <= i <= x.len(),
            i <= y.len(),
            precedes(a@, b@) == precedes(a@.skip(i as int), b@.skip(i as int)),
        decreases x.len() - i,
    {
        assert(a@.skip(i as int)[0] == x@[i as int]);
        assert(b@.skip(i as int)[0] == y@[i as int]);
        assert(a@.skip(i as int).drop_first() =~= a@.skip(i + 1));
        assert(b@.skip(i as int).drop_first() =~= b@.skip(i + 1));
        if x[i] != y[i] {
            return x[i] < y[i];
        }
        i = i + 1;
    }
    i < y.len()
}

/// The order of texts is total: of two different ones, one comes before the
/// other, and not both.
pub proof fn precedes_is_total(a: Seq<char>, b: Seq<char>)
    ensures
        !precedes(a, a),
        a != b ==> precedes(a, b) != precedes(b, a),
    decreases a.len(),
{
    if a.len() > 0 {
        precedes_is_total(a.drop_first(), b.drop_first());
        if b.len() > 0 && a[0] == b[0] && a.drop_first() == b.drop_first() {
            assert(a =~= seq![a[0]] + a.drop_first());
            assert(b =~= seq![b[0]] + b.drop_first());
        }
    } else if b.len() == 0 {
        assert(a =~= b);
    }
}

/// The order of texts is transitive.
pub proof fn precedes_is_transitive(a: Seq<char>, b: Seq<char>, c: Seq<char>)
    requires
        precedes(a, b),
        precedes(b, c),
    ensures
        precedes(a, c),
    decreases a.len(),
{
    if a.len() > 0 && a[0] == b[0] && b[0] == c[0] {
        precedes_is_transitive(a.drop_first(), b.drop_first(), c.drop_first());
    }
}

/// Where a text goes in an ordered list: after every one that it does not come
/// before.
pub open spec fn slot(v: Seq<Seq<char>>, x: Seq<char>) -> int
    decreases v.len(),
{
    if v.len() == 0 {
        0
    } else if !precedes(x, v.last()) {
        v.len() as int
    } else {
        slot(v.drop_last(), x)
    }
}

/// The texts in order.
pub open spec fn in_order(v: Seq<Seq<char>>) -> Seq<Seq<char>>
    decreases v.len(),
{
    if v.len() == 0 {
        Seq::empty()
    } else {
        let before = in_order(v.drop_last());
        before.insert(slot(before, v.last()), v.last())
    }
}

/// No text comes before one that stands before it.
pub open spec fn is_ordered(v: Seq<Seq<char>>) -> bool {
    forall|i: int, j: int|
        0 <= i <= j < v.len() ==> !precedes(#[trigger] v[j], #[trigger] v[i])
}

proof fn slot_bound(v: Seq<Seq<char>>, x: Seq<char>)
    requires
        is_ordered(v),
    ensures
        0 <= slot(v, x) <= v.len(),
        forall|i: int| slot(v, x) <= i < v.len() ==> precedes(x, #[trigger] v[i]),
        forall|i: int| 0 <= i < slot(v, x) ==> !precedes(x, #[trigger] v[i]),
    decreases v.len(),
{
    if v.len() > 0 && precedes(x, v.last()) {
        let t = v.drop_last();
        assert(is_ordered(t)) by {
            assert forall|i: int, j: int| 0 <= i <= j < t.len() implies !precedes(
                #[trigger] t[j],
                #[trigger] t[i],
            ) by {
                assert(t[i] == v[i] && t[j] == v[j]);
            }
        }
        slot_bound(t, x);
        assert forall|i: int| slot(v, x) <= i < v.len() implies precedes(x, #[trigger] v[i]) by {
            if i < t.len() {
                assert(t[i] == v[i]);
            }
        }
        assert forall|i: int| 0 <= i < slot(v, x) implies !precedes(x, #[trigger] v[i]) by {
            assert(t[i] == v[i]);
        }
    } else if v.len() > 0 {
        assert forall|i: int| 0 <= i < slot(v, x) implies !precedes(x, #[trigger] v[i]) by {
            let l = v[v.len() - 1];
            assert(!precedes(l, v[i]));
            if precedes(x, v[i]) {
                precedes_is_total(v[i], l);
                if v[i] != l {
                    precedes_is_transitive(x, v[i], l);
                }
            }
        }
    }
}

/// Ordering keeps the texts and orders them.
pub proof fn in_order_is_ordered(v: Seq<Seq<char>>)
    ensures
        is_ordered(in_order(v)),
        in_order(v).to_multiset() == v.to_multiset(),
        in_order(v).len() == v.len(),
    decreases v.len(),
{
    broadcast use vstd::seq_lib::group_to_multiset_ensures;

    if v.len() > 0 {
        let t = v.drop_last();
        in_order_is_ordered(t);
        let b = in_order(t);
        let x = v.last();
        slot_bound(b, x);
        let k = slot(b, x);
        let w = b.insert(k, x);
        assert forall|i: int, j: int| 0 <= i <= j < w.len() implies !precedes(
            #[trigger] w[j],
            #[trigger] w[i],
        ) by {
            precedes_is_total(x, x);
            if i == k && j > k {
                assert(w[j] == b[j - 1]);
                precedes_is_total(x, b[j - 1]);
                if x == b[j - 1] {
                    precedes_is_total(x, x);
                }
            } else if j == k && i < k {
                assert(w[i] == b[i]);
            } else if i != k && j != k {
                let ii = if i < k {
                    i
                } else {
                    i - 1
                };
                let jj = if j < k {
                    j
                } else {
                    j - 1
                };
                assert(w[i] == b[ii] && w[j] == b[jj]);
            }
        }
        vstd::seq_lib::to_multiset_insert(b, k, x);
        assert(v =~= t.push(x));
        vstd::seq_lib::to_multiset_build(t, x);
    } else {
        assert(in_order(v) =~= v);
    }
}

/// Orders texts as `sort` does on `String`s.
pub fn sort_texts(list: Vec<String>) -> (r: Vec<String>)
    ensures
        texts(r@) == in_order(texts(list@)),
{
    let ghost all = texts(list@);
    let mut out: Vec<String> = Vec::new();
    let mut i: usize = 0;
    assert(texts(out@) =~= Seq::empty());
    assert(all.take(0) =~= Seq::empty());
    while i < list.len()
        invariant
            0 <= i <= list.len(),
            all == texts(list@),
            texts(out@) == in_order(all.take(i as int)),
        decreases list.len() - i,
    {
        let x = list[i].clone();
        let ghost had = texts(out@);
        assert(all[i as int] == x@);
        assert(all.take(i + 1).drop_last() =~= all.take(i as int));
        let mut k: usize = out.len();
        assert(had.take(k as int) =~= had);
        while k > 0 && comes_before(x.as_str(), out[k - 1].as_str())
            invariant
                0 <= k <= out.len(),
                had == texts(out@),
                slot(had, x@) == slot(had.take(k as int), x@),
            decreases k,
        {
            assert(had.take(k as int).last() == out@[k - 1]@);
            assert(had.take(k as int).drop_last() =~= had.take(k - 1));
            k = k - 1;
        }
        assert(k > 0 ==> had.take(k as int).last() == out@[k - 1]@);
        assert(k == slot(had, x@));
        out.insert(k, x);
        assert(texts(out@) =~= had.insert(k as int, x@));
        i = i + 1;
    }
    assert(all.take(i as int) =~= all);
    out
}

/// Trimming takes white space from the two ends, all of it there and nothing
/// else.
pub proof fn trimming_takes_space_at_the_ends(s: Seq<char>)
    ensures
        exists|a: int, b: int|
            0 <= a <= b <= s.len() && trimmed(s) == #[trigger] s.subrange(a, b) && (forall|i: int|
                0 <= i < a || b <= i < s.len() ==> is_space(#[trigger] s[i])),
        trimmed(s).len() > 0 ==> !is_space(trimmed(s)[0]) && !is_space(trimmed(s).last()),
{
    let f = trim_front(s);
    let t = trim_back(f);
    front_shape(s);
    back_shape(f);
    let a = s.len() - f.len();
    let b = a + t.len();
    assert(t =~= s.subrange(a, b));
    assert forall|i: int| 0 <= i < a || b <= i < s.len() implies is_space(#[trigger] s[i]) by {
        if i >= b {
            assert(is_space(f[i - a]));
        }
    }
}

/// What is trimmed once is trimmed.
pub proof fn trimming_is_done_once(s: Seq<char>)
    ensures
        trimmed(trimmed(s)) == trimmed(s),
{
    trimming_takes_space_at_the_ends(s);
}

/// A numeral is read back as its number, where the number is in range.
pub proof fn numerals_read_back(n: nat, max: nat, z: int)
    requires
        n <= max,
        i64::MIN <= z <= i64::MAX,
    ensures
        parsed_unsigned(decimal_of(n), max) == Some(n),
        parsed_signed(signed_decimal_of(z)) == Some(z),
{
    decimal_reads_back(n);
    assert(is_digit(decimal_of(n)[0]));
    if z < 0 {
        decimal_reads_back((-z) as nat);
        let s = signed_decimal_of(z);
        assert(s.skip(1) =~= decimal_of((-z) as nat));
    } else {
        decimal_reads_back(z as nat);
        assert(is_digit(decimal_of(z as nat)[0]));
    }
}

/// Lowering makes every capital small and leaves everything else as it is.
pub proof fn lowering_takes_every_capital(s: Seq<char>, i: int)
    requires
        0 <= i < s.len(),
    ensures
        lowered(s).len() == s.len(),
        !('A' <= lowered(s)[i] <= 'Z'),
        !('A' <= s[i] <= 'Z') ==> lowered(s)[i] == s[i],
        'A' <= s[i] <= 'Z' ==> lowered(s)[i] as u32 == s[i] as u32 + 32,
{
}

/// Every line that a line feed ended is a line, in order, and so is what follows
/// the last one where it is not empty: put together again with line feeds the
/// lines are the text, where it holds no carriage return.
pub proof fn lines_make_the_text(s: Seq<char>)
    requires
        s.len() > 0,
        s.last() == '\n',
        forall|i: int| 0 <= i < s.len() ==> #[trigger] s[i] != '\r',
    ensures
        joined(lines_of(s), seq!['\n']).push('\n') == s,
{
    let t = s.drop_last();
    let p = pieces(t, '\n');
    pieces_shape(t, '\n');
    joined_pieces(t, '\n');
    pieces_hold(t, '\n');
    let q = pieces(s, '\n');
    assert(q.last().len() == 0);
    assert(q.drop_last() =~= p);
    assert(lines_of(s) =~= p) by {
        assert forall|i: int| 0 <= i < p.len() implies drop_cr(#[trigger] q[i]) == p[i] by {
            assert(q[i] == p[i]);
            if p[i].len() > 0 {
                let x = p[i].last();
                assert(p[i][p[i].len() - 1] == x);
                assert(t.contains(x));
                let k = choose|k: int| 0 <= k < t.len() && t[k] == x;
                assert(s[k] == x);
            }
        }
    }
    assert(t.push('\n') =~= s);
}

/// A piece holds nothing that the text does not.
proof fn pieces_hold(s: Seq<char>, c: char)
    ensures
        forall|i: int, j: int|
            0 <= i < pieces(s, c).len() && 0 <= j < pieces(s, c)[i].len() ==> s.contains(
                #[trigger] pieces(s, c)[i][j],
            ),
    decreases s.len(),
{
    if s.len() > 0 {
        let t = s.drop_last();
        pieces_shape(t, c);
        pieces_hold(t, c);
        let p = pieces(t, c);
        let q = pieces(s, c);
        assert forall|i: int, j: int| 0 <= i < q.len() && 0 <= j < q[i].len() implies s.contains(
            #[trigger] q[i][j],
        ) by {
            if s.last() != c && i == q.len() - 1 && j == q[i].len() - 1 {
                assert(s[s.len() - 1] == q[i][j]);
            } else {
                assert(q[i][j] == p[i][j]);
                assert(t.contains(p[i][j]));
                let k = choose|k: int| 0 <= k < t.len() && t[k] == p[i][j];
                assert(s[k] == q[i][j]);
            }
        }
    }
}

/// One text comes before another exactly where they first differ, or where the
/// other goes on.
pub proof fn order_is_decided_at_the_first_difference(a: Seq<char>, b: Seq<char>, k: int)
    requires
        0 <= k <= a.len(),
        k <= b.len(),
        a.take(k) == b.take(k),
    ensures
        k < a.len() && k < b.len() && a[k] != b[k] ==> (precedes(a, b) <==> a[k] < b[k]),
        k == a.len() ==> (precedes(a, b) <==> k < b.len()),
        k == b.len() ==> !precedes(a, b),
    decreases k,
{
    if k > 0 {
        assert(a.take(k)[0] == a[0] && b.take(k)[0] == b[0]);
        let x = a.drop_first();
        let y = b.drop_first();
        assert(x.take(k - 1) =~= a.take(k).drop_first());
        assert(y.take(k - 1) =~= b.take(k).drop_first());
        order_is_decided_at_the_first_difference(x, y, k - 1);
    }
}

/// What stands in a text stands in every text around it.
pub proof fn occurs_between(a: Seq<char>, b: Seq<char>, c: Seq<char>, needle: Seq<char>)
    requires
        occurs(b, needle),
    ensures
        occurs(a + b + c, needle),
{
    let k = choose|k: int| occurs_at(b, needle, k);
    let w = a + b + c;
    let m = a.len() + k;
    assert(w.subrange(m, m + needle.len()) =~= b.subrange(k, k + needle.len()));
    assert(occurs_at(w, needle, m));
}

/// A text stands in itself.
pub proof fn occurs_in_itself(s: Seq<char>)
    ensures
        occurs(s, s),
{
    assert(s.subrange(0, s.len() as int) =~= s);
    assert(occurs_at(s, s, 0));
}

/// What stands in a text stands in it with anything behind it, and a text stands at
/// the end of whatever it is put behind.
pub proof fn occurs_on(a: Seq<char>, b: Seq<char>, needle: Seq<char>)
    ensures
        occurs(a, needle) ==> occurs(a + b, needle),
        occurs(b, needle) ==> occurs(a + b, needle),
        occurs(a + b, b),
{
    let none = Seq::<char>::empty();
    assert(none + a + b =~= a + b);
    assert(a + b + none =~= a + b);
    if occurs(a, needle) {
        occurs_between(none, a, b, needle);
    }
    if occurs(b, needle) {
        occurs_between(a, b, none, needle);
    }
    occurs_in_itself(b);
    occurs_between(a, b, none, b);
}

pub(crate) proof fn group3(a: Seq<char>, b: Seq<char>, c: Seq<char>)
    ensures
        a + b + c == a + (b + c),
{
    assert(a + b + c =~= a + (b + c));
}

pub(crate) proof fn group4(a: Seq<char>, b: Seq<char>, c: Seq<char>, d: Seq<char>)
    ensures
        a + b + c + d == a + (b + c + d),
{
    assert(a + b + c + d =~= a + (b + c + d));
}

pub(crate) proof fn group5(a: Seq<char>, b: Seq<char>, c: Seq<char>, d: Seq<char>, e: Seq<char>)
    ensures
        a + b + c + d + e == a + (b + c + d + e),
{
    assert(a + b + c + d + e =~= a + (b + c + d + e));
}

pub(crate) proof fn group6(a: Seq<char>, b: Seq<char>, c: Seq<char>, d: Seq<char>, e: Seq<char>, f: Seq<char>)
    ensures
        a + b + c + d + e + f == a + (b + c + d + e + f),
{
    assert(a + b + c + d + e + f =~= a + (b + c + d + e + f));
}

pub(crate) proof fn group7(a: Seq<char>, b: Seq<char>, c: Seq<char>, d: Seq<char>, e: Seq<char>, f: Seq<char>, g: Seq<char>)
    ensures
        a + b + c + d + e + f + g == a + (b + c + d + e + f + g),
{
    assert(a + b + c + d + e + f + g =~= a + (b + c + d + e + f + g));
}

} // verus!
