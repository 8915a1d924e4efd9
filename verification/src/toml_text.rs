//! TOML documents, kept as their texts.
use crate::json::{field, json_text, parse_json, Json, JsonV};
use crate::text::{opt_text, texts, to_chars};
use vstd::prelude::*;

verus! {

/// Why `str::parse::<toml::Value>` refuses a text; `None` where it does not.
pub uninterp spec fn toml_problem(text: Seq<char>) -> Option<Seq<char>>;

/// Whether a document has something under a top-level key.
pub uninterp spec fn toml_holds(text: Seq<char>, key: Seq<char>) -> bool;

/// What `toml::to_string` writes for a table with parts of a document, each
/// taken from one key and put under another.
pub uninterp spec fn toml_lifted(text: Seq<char>, picks: Seq<(Seq<char>, Seq<char>)>) -> Option<
    Seq<char>,
>;

/// What `toml::to_string` writes for what stands under a top-level key.
pub uninterp spec fn toml_inner(text: Seq<char>, key: Seq<char>) -> Option<Seq<char>>;

/// The pairs of keys, as texts.
pub open spec fn picks_view(v: Seq<(&str, &str)>) -> Seq<(Seq<char>, Seq<char>)> {
    Seq::new(v.len(), |i: int| (v[i].0@, v[i].1@))
}

/// `str::parse::<toml::Value>`, for its error alone. The result is named by
/// [`toml_problem`].
#[verifier::external_body]
pub(crate) fn problem(text: &str) -> (r: Option<String>)
    ensures
        opt_text(r) == toml_problem(text@),
{
    text.parse::<toml::Value>().err().map(|e| e.to_string())
}

/// `toml::Value::get` on a parsed document. The result is named by
/// [`toml_holds`]; a text that does not parse has nothing under any key.
#[verifier::external_body]
pub(crate) fn holds(text: &str, key: &str) -> (r: bool)
    ensures
        r == toml_holds(text@, key@),
{
    text.parse::<toml::Value>().is_ok_and(|v| v.get(key).is_some())
}

/// How many marks in a row the TOML writer counts; one more overflows its
/// counter.
pub const MARK_LIMIT: usize = 255;

/// How many of the characters `c` stand in a row at the end of the first `n`.
pub open spec fn run_of(s: Seq<char>, c: char, n: nat) -> nat
    decreases n,
{
    if n == 0 || s[n - 1] != c {
        0
    } else {
        run_of(s, c, (n - 1) as nat) + 1
    }
}

/// A text that the TOML writer can put in quotes: nowhere do more apostrophes or
/// quotation marks stand in a row than it can count.
pub open spec fn quotable(s: Seq<char>) -> bool {
    forall|n: nat|
        n <= s.len() ==> #[trigger] run_of(s, '\'', n) <= MARK_LIMIT && run_of(s, '"', n)
            <= MARK_LIMIT
}

/// Whether a text can be put in quotes.
pub fn is_quotable(s: &str) -> (r: bool)
    ensures
        r == quotable(s@),
{
    let v = to_chars(s);
    let mut single: usize = 0;
    let mut double: usize = 0;
    let mut i: usize = 0;
    while i < v.len()
        invariant
            v@ == s@,
            0 <= i <= v.len(),
            single == run_of(s@, '\'', i as nat),
            double == run_of(s@, '"', i as nat),
            single <= MARK_LIMIT,
            double <= MARK_LIMIT,
            forall|n: nat|
                n <= i ==> #[trigger] run_of(s@, '\'', n) <= MARK_LIMIT && run_of(s@, '"', n)
                    <= MARK_LIMIT,
        decreases v.len() - i,
    {
        single = if v[i] == '\'' {
            single + 1
        } else {
            0
        };
        double = if v[i] == '"' {
            double + 1
        } else {
            0
        };
        i = i + 1;
        assert(single == run_of(s@, '\'', i as nat));
        assert(double == run_of(s@, '"', i as nat));
        if single > MARK_LIMIT || double > MARK_LIMIT {
            return false;
        }
    }
    true
}

/// What `serde_json::Value`'s `Display` writes for a document that `toml::from_str`
/// reads as one; `None` where it refuses the text.
pub uninterp spec fn toml_json(text: Seq<char>) -> Option<Seq<char>>;

/// `toml::from_str` into a `serde_json::Value`, and its `Display`. The result is
/// named by [`toml_json`]. A text value of the document is a text there too.
#[verifier::external_body]
fn json_of(text: &str) -> (r: Option<String>)
    ensures
        opt_text(r) == toml_json(text@),
{
    toml::from_str::<serde_json::Value>(text).ok().map(|v| v.to_string())
}

/// A document's values.
pub open spec fn values_of(text: Seq<char>) -> Option<JsonV> {
    match toml_json(text) {
        Some(t) => json_text(t),
        None => None,
    }
}

/// A value each of whose texts can be put in quotes.
pub open spec fn marks_fit(j: JsonV) -> bool
    decreases j,
{
    match j {
        JsonV::Str(s) => quotable(s),
        JsonV::Arr(v) => forall|i: int| 0 <= i < v.len() ==> marks_fit(#[trigger] v[i]),
        JsonV::Obj(m) => forall|i: int| 0 <= i < m.len() ==> marks_fit((#[trigger] m[i]).1),
        _ => true,
    }
}

/// Whether each text of a value can be put in quotes.
pub fn texts_fit(j: &Json) -> (r: bool)
    ensures
        r == marks_fit(j@),
    decreases j,
{
    match j {
        Json::Str(s) => is_quotable(s.as_str()),
        Json::Arr(v) => {
            let ghost all = j@->Arr_0;
            let mut i: usize = 0;
            while i < v.len()
                invariant
                    0 <= i <= v.len(),
                    j == Json::Arr(*v),
                    all == j@->Arr_0,
                    j@ == JsonV::Arr(all),
                    forall|k: int| 0 <= k < i ==> marks_fit(#[trigger] all[k]),
                decreases v.len() - i,
            {
                assert(decreases_to!(*j => j->Arr_0@[i as int]));
                assert(all[i as int] == v@[i as int]@);
                if !texts_fit(&v[i]) {
                    return false;
                }
                i = i + 1;
            }
            true
        },
        Json::Obj(m) => {
            let ghost all = j@->Obj_0;
            let mut i: usize = 0;
            while i < m.len()
                invariant
                    0 <= i <= m.len(),
                    j == Json::Obj(*m),
                    all == j@->Obj_0,
                    j@ == JsonV::Obj(all),
                    forall|k: int| 0 <= k < i ==> marks_fit((#[trigger] all[k]).1),
                decreases m.len() - i,
            {
                assert(decreases_to!(*j => j->Obj_0@[i as int]));
                assert(decreases_to!(m@[i as int] => m@[i as int].1));
                assert(all[i as int] == (m@[i as int].0@, m@[i as int].1@));
                if !texts_fit(&m[i].1) {
                    return false;
                }
                i = i + 1;
            }
            true
        },
        _ => true,
    }
}

/// What stands under a key of a document can be written anew: the writer counts
/// the marks of a row in one byte, and no text there holds a longer row.
pub open spec fn writable(text: Seq<char>, key: Seq<char>) -> bool {
    values_of(text) matches Some(j) && (field(j, key) matches Some(v) && marks_fit(v))
}

/// Whether what stands under a key of a document's values can be written anew.
pub fn values_writable(values: &Option<Json>, key: &str) -> (r: bool)
    ensures
        r == (values matches Some(j) && (field(j@, key@) matches Some(v) && marks_fit(v))),
{
    match values {
        Some(j) => match j.get(key) {
            Some(v) => texts_fit(v),
            None => false,
        },
        None => false,
    }
}

/// Whether what stands under a key of a document can be written anew.
pub fn is_writable(text: &str, key: &str) -> (r: bool)
    ensures
        r == writable(text@, key@),
{
    let values = match json_of(text) {
        Some(t) => parse_json(t.as_str()),
        None => None,
    };
    values_writable(&values, key)
}

/// `toml::to_string` on a table that holds parts of a document under new keys.
/// The result is named by [`toml_lifted`].
#[verifier::external_body]
pub(crate) fn lifted(text: &str, picks: &[(&str, &str)]) -> (r: Option<String>)
    requires
        forall|i: int|
            0 <= i < picks@.len() ==> toml_holds(text@, (#[trigger] picks@[i]).0@) && writable(
                text@,
                picks@[i].0@,
            ),
    ensures
        opt_text(r) == toml_lifted(text@, picks_view(picks@)),
{
    let v = text.parse::<toml::Value>().ok()?;
    let m: toml::map::Map<String, toml::Value> =
        picks.iter().map(|(from, to)| (to.to_string(), v[*from].clone())).collect();
    toml::to_string(&toml::Value::Table(m)).ok()
}

/// `toml::to_string` on what stands under a key. The result is named by
/// [`toml_inner`].
#[verifier::external_body]
pub(crate) fn inner(text: &str, key: &str) -> (r: Option<String>)
    requires
        toml_holds(text@, key@),
        writable(text@, key@),
    ensures
        opt_text(r) == toml_inner(text@, key@),
{
    toml::to_string(&text.parse::<toml::Value>().ok()?[key]).ok()
}

/// What stands at a place two tables deep.
#[derive(Debug, PartialEq, Eq)]
pub enum Entry {
    /// There is no outer table.
    NoOuter,
    /// There is no inner one.
    NoInner,
    NoKey,
    /// Something that is no text.
    Other,
    Text(String),
}

/// The view of an [`Entry`].
#[verifier::ext_equal]
pub enum EntryV {
    NoOuter,
    NoInner,
    NoKey,
    Other,
    Text(Seq<char>),
}

impl View for Entry {
    type V = EntryV;

    open spec fn view(&self) -> EntryV {
        match *self {
            Entry::NoOuter => EntryV::NoOuter,
            Entry::NoInner => EntryV::NoInner,
            Entry::NoKey => EntryV::NoKey,
            Entry::Other => EntryV::Other,
            Entry::Text(s) => EntryV::Text(s@),
        }
    }
}

/// What stands at a place of a document, or why it does not parse.
pub uninterp spec fn toml_entry(
    text: Seq<char>,
    outer: Seq<char>,
    inner: Seq<char>,
    key: Seq<char>,
) -> Result<EntryV, Seq<char>>;

/// The document with a text put at a place; an error tells whether it is the
/// inner table that is none.
pub uninterp spec fn toml_with(
    text: Seq<char>,
    outer: Seq<char>,
    inner: Seq<char>,
    key: Seq<char>,
    value: Seq<char>,
) -> Result<Seq<char>, bool>;

/// The document without what stands at a place; nothing where the inner table
/// is none.
pub uninterp spec fn toml_without(
    text: Seq<char>,
    outer: Seq<char>,
    inner: Seq<char>,
    key: Seq<char>,
) -> Option<Seq<char>>;

/// What stands at a place of a document is `e`.
pub open spec fn reads_as(
    text: Seq<char>,
    outer: Seq<char>,
    inner: Seq<char>,
    key: Seq<char>,
    e: EntryV,
) -> bool {
    toml_entry(text, outer, inner, key) == Ok::<EntryV, Seq<char>>(e)
}

/// There is nothing at a place of a document that parses.
pub open spec fn reads_as_nothing(
    text: Seq<char>,
    outer: Seq<char>,
    inner: Seq<char>,
    key: Seq<char>,
) -> bool {
    toml_entry(text, outer, inner, key) matches Ok(e) ==> !(e is Text || e is Other)
}

/// Every text that stands at a place of one document, but for the place named,
/// stands there in the other one too.
pub open spec fn others_stay(
    before: Seq<char>,
    after: Seq<char>,
    outer: Seq<char>,
    inner: Seq<char>,
    key: Seq<char>,
) -> bool {
    forall|o: Seq<char>, i: Seq<char>, k: Seq<char>, s: Seq<char>|
        #[trigger] reads_as(before, o, i, k, EntryV::Text(s)) && (o != outer || i != inner || k
            != key) ==> reads_as(after, o, i, k, EntryV::Text(s))
}

/// A text without control characters.
pub open spec fn printable(s: Seq<char>) -> bool {
    forall|i: int| 0 <= i < s.len() ==> ' ' <= #[trigger] s[i] && s[i] != '\u{7f}'
}

/// `toml_edit::DocumentMut`'s parse and `get`. The result is named by
/// [`toml_entry`].
#[verifier::external_body]
pub(crate) fn entry(text: &str, outer: &str, inner: &str, key: &str) -> (r: Result<Entry, String>)
    ensures
        match r {
            Ok(e) => toml_entry(text@, outer@, inner@, key@) == Ok::<EntryV, Seq<char>>(e@),
            Err(e) => toml_entry(text@, outer@, inner@, key@) == Err::<EntryV, Seq<char>>(e@),
        },
{
    let doc = text.parse::<toml_edit::DocumentMut>().map_err(|e| e.to_string())?;
    let Some(outer) = doc.get(outer) else { return Ok(Entry::NoOuter) };
    let Some(inner) = outer.get(inner) else { return Ok(Entry::NoInner) };
    let Some(item) = inner.get(key) else { return Ok(Entry::NoKey) };
    Ok(item.as_str().map_or(Entry::Other, |s| Entry::Text(s.to_string())))
}

/// `toml_edit`'s `entry`, `insert` and `to_string`: the rest of the document
/// keeps its text. The result is named by [`toml_with`]. A document without
/// such an outer table always takes the text. Wherever a printable text is put
/// under printable keys and nothing stood there, it reads back, and so does
/// every text at another place. Only the new text is put in quotes; the others
/// keep their spelling.
#[verifier::external_body]
pub(crate) fn with_entry(text: &str, outer: &str, inner: &str, key: &str, value: &str) -> (r:
    Result<String, bool>)
    requires
        toml_entry(text@, outer@, inner@, key@) is Ok,
        quotable(value@),
    ensures
        match r {
            Ok(t) => toml_with(text@, outer@, inner@, key@, value@) == Ok::<Seq<char>, bool>(t@),
            Err(b) => toml_with(text@, outer@, inner@, key@, value@) == Err::<Seq<char>, bool>(b),
        },
        reads_as(text@, outer@, inner@, key@, EntryV::NoOuter) ==> r is Ok,
        printable(outer@) && printable(inner@) && printable(key@) && printable(value@)
            && reads_as_nothing(text@, outer@, inner@, key@) && r is Ok ==> reads_as(
            r->Ok_0@,
            outer@,
            inner@,
            key@,
            EntryV::Text(value@),
        ) && others_stay(text@, r->Ok_0@, outer@, inner@, key@),
{
    let mut doc = text.parse::<toml_edit::DocumentMut>().unwrap_or_default();
    let o = doc.entry(outer).or_insert(toml_edit::table()).as_table_mut().ok_or(false)?;
    o.set_implicit(true);
    let i = o.entry(inner).or_insert(toml_edit::table()).as_table_mut().ok_or(true)?;
    i.insert(key, toml_edit::value(value));
    Ok(doc.to_string())
}

/// `toml_edit`'s `remove` and `to_string`. The result is named by
/// [`toml_without`]; what it reads back as has nothing at the place, and every
/// text at another place.
#[verifier::external_body]
pub(crate) fn without_entry(text: &str, outer: &str, inner: &str, key: &str) -> (r: Option<String>)
    requires
        toml_entry(text@, outer@, inner@, key@) matches Ok(EntryV::Text(_)),
    ensures
        opt_text(r) == toml_without(text@, outer@, inner@, key@),
        r is Some ==> reads_as_nothing(r->0@, outer@, inner@, key@) && others_stay(
            text@,
            r->0@,
            outer@,
            inner@,
            key@,
        ),
{
    let mut doc = text.parse::<toml_edit::DocumentMut>().ok()?;
    doc[outer][inner].as_table_mut()?.remove(key);
    Some(doc.to_string())
}

/// A field of a table.
#[derive(Debug, PartialEq, Eq)]
pub enum Field {
    Text(String),
    List(Vec<String>),
}

/// The view of a [`Field`].
#[verifier::ext_equal]
pub enum FieldV {
    Text(Seq<char>),
    List(Seq<Seq<char>>),
}

impl View for Field {
    type V = FieldV;

    open spec fn view(&self) -> FieldV {
        match *self {
            Field::Text(s) => FieldV::Text(s@),
            Field::List(v) => FieldV::List(texts(v@)),
        }
    }
}

/// The fields of a table, in order.
pub open spec fn fields_view(v: Seq<(&str, Field)>) -> Seq<(Seq<char>, FieldV)> {
    Seq::new(v.len(), |i: int| (v[i].0@, v[i].1@))
}

/// Fields whose texts the TOML writer can put in quotes.
pub open spec fn fields_quotable(v: Seq<(Seq<char>, FieldV)>) -> bool {
    forall|i: int|
        0 <= i < v.len() ==> match (#[trigger] v[i]).1 {
            FieldV::Text(s) => quotable(s),
            FieldV::List(l) => all_quotable(l),
        }
}

/// Texts that the TOML writer can put in quotes.
pub open spec fn all_quotable(v: Seq<Seq<char>>) -> bool {
    forall|i: int| 0 <= i < v.len() ==> quotable(#[trigger] v[i])
}

/// What `toml_edit` writes for a document that holds one array of tables with
/// one table in it.
pub uninterp spec fn toml_block(header: Seq<char>, fields: Seq<(Seq<char>, FieldV)>) -> Seq<char>;

/// `toml_edit::DocumentMut`'s `to_string` on a document with one array of
/// tables. The result is named by [`toml_block`].
#[verifier::external_body]
pub(crate) fn block(header: &str, fields: &[(&str, Field)]) -> (r: String)
    requires
        fields_quotable(fields_view(fields@)),
    ensures
        r@ == toml_block(header@, fields_view(fields@)),
{
    let mut table = toml_edit::Table::new();
    for (key, field) in fields {
        table[key] = match field {
            Field::Text(s) => toml_edit::value(s.as_str()),
            Field::List(v) => toml_edit::value(v.iter().collect::<toml_edit::Array>()),
        };
    }
    let mut tables = toml_edit::ArrayOfTables::new();
    tables.push(table);
    let mut doc = toml_edit::DocumentMut::new();
    doc[header] = toml_edit::Item::ArrayOfTables(tables);
    doc.to_string()
}

/// A text can be quoted exactly where no 256 of the same quotation mark stand in a row.
pub proof fn long_runs_cannot_be_quoted(s: Seq<char>)
    ensures
        quotable(s) <==> forall|c: char, i: int|
            #![trigger is_run(s, c, i)]
            (c == '\'' || c == '"') ==> !is_run(s, c, i),
{
    if !quotable(s) {
        let n = choose|n: nat|
            n <= s.len() && !(#[trigger] run_of(s, '\'', n) <= MARK_LIMIT && run_of(s, '"', n)
                <= MARK_LIMIT);
        let c = if run_of(s, '\'', n) > MARK_LIMIT {
            '\''
        } else {
            '"'
        };
        run_shape(s, c, n);
        assert(is_run(s, c, n - 256));
    } else {
        assert forall|c: char, i: int|
            #![trigger is_run(s, c, i)]
            (c == '\'' || c == '"') implies !is_run(s, c, i) by {
            if is_run(s, c, i) {
                run_counts(s, c, i, 256);
                let n = (i + 256) as nat;
                assert(run_of(s, '\'', n) <= MARK_LIMIT && run_of(s, '"', n) <= MARK_LIMIT);
            }
        }
    }
}

/// From the place `i` on, 256 characters are `c`.
pub open spec fn is_run(s: Seq<char>, c: char, i: int) -> bool {
    0 <= i && i + 256 <= s.len() && forall|k: int| i <= k < i + 256 ==> #[trigger] s[k] == c
}

proof fn run_shape(s: Seq<char>, c: char, n: nat)
    requires
        n <= s.len(),
    ensures
        run_of(s, c, n) <= n,
        forall|k: int| n - run_of(s, c, n) <= k < n ==> #[trigger] s[k] == c,
    decreases n,
{
    if n > 0 && s[n - 1] == c {
        run_shape(s, c, (n - 1) as nat);
    }
}

proof fn run_counts(s: Seq<char>, c: char, i: int, n: nat)
    requires
        0 <= i,
        i + n <= s.len(),
        forall|k: int| i <= k < i + n ==> #[trigger] s[k] == c,
    ensures
        run_of(s, c, (i + n) as nat) >= n,
    decreases n,
{
    if n > 0 {
        run_counts(s, c, i, (n - 1) as nat);
        assert(s[i + n - 1] == c);
    }
}

/// A value can be written anew exactly where every text in it can be quoted, however
/// deep it stands.
pub proof fn values_fit_by_their_texts(j: JsonV)
    ensures
        j matches JsonV::Str(s) ==> (marks_fit(j) <==> quotable(s)),
        j matches JsonV::Arr(v) ==> (marks_fit(j) <==> v.all(|x: JsonV| marks_fit(x))),
        j matches JsonV::Obj(m) ==> (marks_fit(j) <==> m.all(
            |x: (Seq<char>, JsonV)| marks_fit(x.1),
        )),
        !(j is Str) && !(j is Arr) && !(j is Obj) ==> marks_fit(j),
{
    match j {
        JsonV::Arr(v) => {
            let fits = |x: JsonV| marks_fit(x);
            if v.all(fits) {
                assert forall|i: int| 0 <= i < v.len() implies marks_fit(#[trigger] v[i]) by {
                    assert(fits(v[i]));
                }
            }
            if marks_fit(j) {
                assert forall|i: int| 0 <= i < v.len() implies fits(#[trigger] v[i]) by {}
            }
        },
        JsonV::Obj(m) => {
            let fits = |x: (Seq<char>, JsonV)| marks_fit(x.1);
            if m.all(fits) {
                assert forall|i: int| 0 <= i < m.len() implies marks_fit((#[trigger] m[i]).1) by {
                    assert(fits(m[i]));
                }
            }
            if marks_fit(j) {
                assert forall|i: int| 0 <= i < m.len() implies fits(#[trigger] m[i]) by {}
            }
        },
        _ => {},
    }
}

} // verus!
