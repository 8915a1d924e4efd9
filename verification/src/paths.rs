//! File-system paths as texts with `/` between their parts. Comparison is by
//! parts, so that `/a/b`, `/a//b` and `/a/./b/` are one path.
use crate::text::{pieces, pieces_concat, pieces_shape, same, split, strip_prefix, texts};
use vstd::prelude::*;
use vstd::string::*;

verus! {

/// A part that names something: not empty and not `.`.
pub open spec fn is_name(part: Seq<char>) -> bool {
    part.len() > 0 && part != seq!['.']
}

/// The parts of `raw` that name something, in order.
pub open spec fn names(raw: Seq<Seq<char>>) -> Seq<Seq<char>>
    decreases raw.len(),
{
    if raw.len() == 0 {
        Seq::empty()
    } else if is_name(raw.last()) {
        names(raw.drop_last()).push(raw.last())
    } else {
        names(raw.drop_last())
    }
}

/// Whether a path starts at the root.
pub open spec fn is_rooted(p: Seq<char>) -> bool {
    p.len() > 0 && p[0] == '/'
}

/// The parts of a path: `/` first for a path from the root, `.` first where it
/// starts so, and then the names. Repeated separators, other `.` parts and a
/// trailing separator do not count.
pub open spec fn path_parts(p: Seq<char>) -> Seq<Seq<char>> {
    let raw = pieces(p, '/');
    if is_rooted(p) {
        seq![seq!['/']] + names(raw)
    } else if raw[0] == seq!['.'] {
        seq![seq!['.']] + names(raw)
    } else {
        names(raw)
    }
}

/// `a` is `b` or lies under it.
pub open spec fn within(a: Seq<char>, b: Seq<char>) -> bool {
    path_parts(b).is_prefix_of(path_parts(a))
}

/// `a` and `b` are equal, or one lies under the other.
pub open spec fn overlap(a: Seq<char>, b: Seq<char>) -> bool {
    within(a, b) || within(b, a)
}

/// Whether a path starts at the root.
pub fn is_absolute(p: &str) -> (r: bool)
    ensures
        r == is_rooted(p@),
{
    p.unicode_len() > 0 && p.get_char(0) == '/'
}

/// The parts of a path.
pub fn components(p: &str) -> (r: Vec<String>)
    ensures
        texts(r@) == path_parts(p@),
{
    let raw = split(p, '/');
    let ghost all = pieces(p@, '/');
    proof {
        pieces_shape(p@, '/');
        assert(texts(raw@).len() >= 1);
        assert(all[0] == raw@[0]@);
    }
    let mut out: Vec<String> = Vec::new();
    if is_absolute(p) {
        let mut root = String::new();
        root.push('/');
        assert(root@ =~= seq!['/']);
        out.push(root);
        assert(texts(out@) =~= seq![seq!['/']]);
    } else {
        let mut dot = String::new();
        dot.push('.');
        assert(dot@ =~= seq!['.']);
        if same(raw[0].as_str(), dot.as_str()) {
            out.push(dot);
            assert(texts(out@) =~= seq![seq!['.']]);
        }
    }
    let ghost start = texts(out@);
    let mut dot = String::new();
    dot.push('.');
    assert(dot@ =~= seq!['.']);
    let mut i: usize = 0;
    assert(start + names(all.take(0)) =~= start);
    while i < raw.len()
        invariant
            0 <= i <= raw.len(),
            texts(raw@) == all,
            dot@ == seq!['.'],
            texts(out@) == start + names(all.take(i as int)),
        decreases raw.len() - i,
    {
        assert(all.take(i + 1).drop_last() =~= all.take(i as int));
        assert(all[i as int] == raw@[i as int]@);
        let part = raw[i].as_str();
        if !part.is_empty() && !same(part, dot.as_str()) {
            let ghost before = texts(out@);
            out.push(raw[i].clone());
            assert(texts(out@) =~= before.push(all[i as int]));
        }
        i = i + 1;
    }
    assert(all.take(i as int) =~= all);
    assert(start + names(all) =~= path_parts(p@)) by {
        if !is_rooted(p@) && all[0] != seq!['.'] {
            assert(start =~= Seq::empty());
        }
    }
    out
}

/// Whether `b` is a prefix of `a`, part by part.
fn leads(b: &[String], a: &[String]) -> (r: bool)
    ensures
        r == texts(b@).is_prefix_of(texts(a@)),
{
    if b.len() > a.len() {
        return false;
    }
    let mut i: usize = 0;
    while i < b.len()
        invariant
            0 <= i <= b.len() <= a.len(),
            forall|k: int| 0 <= k < i ==> (#[trigger] b@[k])@ == a@[k]@,
        decreases b.len() - i,
    {
        if !same(b[i].as_str(), a[i].as_str()) {
            assert(texts(b@)[i as int] != texts(a@).take(b@.len() as int)[i as int]);
            return false;
        }
        i = i + 1;
    }
    assert(texts(b@) =~= texts(a@).subrange(0, b@.len() as int));
    true
}

/// Whether `a` is `b` or lies under it.
pub fn starts_with(a: &str, b: &str) -> (r: bool)
    ensures
        r == within(a@, b@),
{
    let x = components(a);
    let y = components(b);
    leads(y.as_slice(), x.as_slice())
}

/// Equal, ancestor or descendant: any of the three lets writes cross into the
/// other's subtree.
pub fn overlaps(a: &str, b: &str) -> (r: bool)
    ensures
        r == overlap(a@, b@),
{
    starts_with(a, b) || starts_with(b, a)
}

/// Whether `a` and `b` are one path.
pub fn same_path(a: &str, b: &str) -> (r: bool)
    ensures
        r == (path_parts(a@) == path_parts(b@)),
{
    let r = starts_with(a, b) && starts_with(b, a);
    proof {
        let x = path_parts(a@);
        let y = path_parts(b@);
        if r {
            assert(x =~= y);
        } else if x == y {
            assert(x.is_prefix_of(y));
        }
    }
    r
}

/// `b` under `a`; a `b` from the root stands for itself.
pub open spec fn joined_path(a: Seq<char>, b: Seq<char>) -> Seq<char> {
    if is_rooted(b) || a.len() == 0 {
        b
    } else if a.last() == '/' {
        a + b
    } else {
        a.push('/') + b
    }
}

/// `Path::join`.
pub fn join(a: &str, b: &str) -> (r: String)
    ensures
        r@ == joined_path(a@, b@),
{
    let n: usize = a.unicode_len();
    if is_absolute(b) || n == 0 {
        return b.to_owned();
    }
    let mut s = a.to_owned();
    if a.get_char(n - 1) != '/' {
        s.push('/');
    }
    s.append(b);
    s
}

/// A leading `~/` stands for the home directory, where there is one.
pub open spec fn home_expanded(p: Seq<char>, home: Option<Seq<char>>) -> Seq<char> {
    if crate::text::has_prefix(p, "~/"@) && home is Some {
        joined_path(home->0, p.skip(2))
    } else {
        p
    }
}

/// Expands a leading `~/` against the home directory.
pub fn expand_home(p: &str, home: Option<&str>) -> (r: String)
    ensures
        r@ == home_expanded(p@, crate::text::opt_str(home)),
{
    proof {
        reveal_strlit("~/");
    }
    if let Some(rest) = strip_prefix(p, "~/") {
        if let Some(h) = home {
            return join(h, rest);
        }
    }
    p.to_owned()
}

/// Overlapping is symmetric, and every path overlaps itself.
pub proof fn overlap_is_symmetric(a: Seq<char>, b: Seq<char>)
    ensures
        overlap(a, b) == overlap(b, a),
        overlap(a, a),
{
    assert(path_parts(a) =~= path_parts(a).subrange(0, path_parts(a).len() as int));
}

/// Lying under is transitive.
pub proof fn within_is_transitive(a: Seq<char>, b: Seq<char>, c: Seq<char>)
    requires
        within(a, b),
        within(b, c),
    ensures
        within(a, c),
{
    let x = path_parts(a);
    let y = path_parts(b);
    let z = path_parts(c);
    assert(z =~= x.subrange(0, z.len() as int));
}

proof fn names_concat(x: Seq<Seq<char>>, y: Seq<Seq<char>>)
    ensures
        names(x + y) == names(x) + names(y),
    decreases y.len(),
{
    if y.len() == 0 {
        assert(x + y =~= x);
        assert(names(x) + names(y) =~= names(x));
    } else {
        names_concat(x, y.drop_last());
        assert((x + y).drop_last() =~= x + y.drop_last());
        assert(names(x + y) =~= names(x) + names(y));
    }
}

proof fn first_piece(x: Seq<char>, c: char, y: Seq<char>)
    ensures
        pieces(x.push(c) + y, c)[0] == pieces(x, c)[0],
{
    pieces_concat(x, c, y);
    pieces_shape(x, c);
}

/// A relative path under `a` lies within `a`.
pub proof fn joined_lies_within(a: Seq<char>, b: Seq<char>)
    requires
        !is_rooted(b),
        a.len() > 0,
    ensures
        within(joined_path(a, b), a),
        path_parts(joined_path(a, b)) == path_parts(a) + names(pieces(b, '/')),
{
    let j = joined_path(a, b);
    if a.last() == '/' {
        let x = a.drop_last();
        assert(a =~= x.push('/'));
        assert(j =~= x.push('/') + b);
        pieces_concat(x, '/', b);
        pieces_concat(x, '/', Seq::empty());
        assert(x.push('/') + Seq::<char>::empty() =~= a);
        assert(pieces(Seq::<char>::empty(), '/') =~= seq![Seq::<char>::empty()]);
        names_concat(pieces(x, '/'), pieces(b, '/'));
        names_concat(pieces(x, '/'), seq![Seq::<char>::empty()]);
        let e = seq![Seq::<char>::empty()];
        assert(e.drop_last() =~= Seq::empty());
        assert(names(e) =~= Seq::empty()) by {
            reveal_with_fuel(names, 2);
        }
        assert(names(pieces(a, '/')) =~= names(pieces(x, '/')));
        first_piece(x, '/', b);
        first_piece(x, '/', Seq::empty());
    } else {
        pieces_concat(a, '/', b);
        names_concat(pieces(a, '/'), pieces(b, '/'));
        first_piece(a, '/', b);
    }
    assert(is_rooted(j) == is_rooted(a));
    assert(path_parts(j) =~= path_parts(a) + names(pieces(b, '/')));
    assert(path_parts(a) =~= path_parts(j).subrange(0, path_parts(a).len() as int));
}

proof fn names_filter(raw: Seq<Seq<char>>)
    ensures
        names(raw) == raw.filter(|p: Seq<char>| p.len() > 0 && p != seq!['.']),
    decreases raw.len(),
{
    reveal(Seq::filter);
    if raw.len() > 0 {
        names_filter(raw.drop_last());
    }
}

/// A path's parts are what stands between its slashes, in order, without empty parts
/// and without dots; a leading slash, or a leading dot, is a part of its own.
pub proof fn paths_are_their_parts(p: Seq<char>)
    ensures
        ({
            let kept = pieces(p, '/').filter(|x: Seq<char>| x.len() > 0 && x != seq!['.']);
            &&& p.len() > 0 && p[0] == '/' ==> path_parts(p) == seq![seq!['/']] + kept
            &&& (p.len() == 0 || p[0] != '/') && pieces(p, '/')[0] != seq!['.'] ==> path_parts(p)
                == kept
            &&& (p.len() == 0 || p[0] != '/') && pieces(p, '/')[0] == seq!['.'] ==> path_parts(p)
                == seq![seq!['.']] + kept
        }),
{
    names_filter(pieces(p, '/'));
}

/// Nothing below the root lies under a path that is not, nor the other way round,
/// but for the empty path, which everything lies under.
pub proof fn rooted_paths_stay_apart(a: Seq<char>, b: Seq<char>)
    requires
        is_rooted(a) != is_rooted(b),
        path_parts(b).len() > 0,
    ensures
        !within(a, b),
{
    let x = path_parts(a);
    let y = path_parts(b);
    names_filter(pieces(a, '/'));
    names_filter(pieces(b, '/'));
    if within(a, b) {
        assert(y[0] == x[0]);
        if is_rooted(b) {
            no_slash_part(a);
            assert(y[0] == seq!['/']);
            assert(x[0][0] == '/');
        } else {
            no_slash_part(b);
            assert(x[0] == seq!['/']);
            assert(y[0][0] == '/');
        }
    }
}

proof fn no_slash_part(p: Seq<char>)
    requires
        !is_rooted(p),
    ensures
        path_parts(p).len() > 0 ==> path_parts(p)[0].len() > 0 && path_parts(p)[0][0] != '/',
{
    let raw = pieces(p, '/');
    pieces_shape(p, '/');
    let good = |x: Seq<char>| x.len() > 0 && x != seq!['.'];
    names_filter(raw);
    let f = raw.filter(good);
    if f.len() > 0 {
        raw.lemma_filter_pred(good, 0);
        raw.lemma_filter_contains_rev(good, f[0]);
        let k = choose|k: int| 0 <= k < raw.len() && raw[k] == f[0];
        assert(raw[k][0] != '/');
    }
}

/// A leading tilde and slash mean the home directory; any other path is taken as it
/// is, and so is that one where no home is known.
pub proof fn a_tilde_means_home(rest: Seq<char>, home: Seq<char>, p: Seq<char>)
    ensures
        home_expanded("~/"@ + rest, Some(home)) == joined_path(home, rest),
        home_expanded(p, None) == p,
        !"~/"@.is_prefix_of(p) ==> home_expanded(p, Some(home)) == p,
{
    reveal_strlit("~/");
    let t = "~/"@;
    let w = t + rest;
    assert(w.subrange(0, 2) =~= t);
    assert(w.take(2) =~= t);
    assert(w.skip(2) =~= rest);
    if crate::text::has_prefix(p, t) {
        assert(t =~= p.take(2));
    }
}

/// A rooted path stands for itself wherever it is joined; any other follows the
/// directory, with one slash between.
pub proof fn joining_puts_one_slash(a: Seq<char>, b: Seq<char>)
    ensures
        is_rooted(b) ==> joined_path(a, b) == b,
        joined_path(Seq::empty(), b) == b,
        !is_rooted(b) && a.len() > 0 && a.last() != '/' ==> joined_path(a, b) == a + seq!['/'] + b,
        !is_rooted(b) && a.len() > 0 && a.last() == '/' ==> joined_path(a, b) == a + b,
{
    assert(a.push('/') + b =~= a + seq!['/'] + b);
}

} // verus!
