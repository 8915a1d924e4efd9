//! JSON values as the library reads and builds them.
use crate::text::{opt_text, same};
use serde::de::Deserialize;
use serde_json::{Deserializer, Value};
use vstd::prelude::*;

verus! {

/// A JSON value. A number that is not an unsigned integer is kept as its text.
#[derive(Debug, PartialEq, Eq)]
pub enum Json {
    Null,
    Bool(bool),
    Uint(u64),
    /// A negative integer or a fraction, in its JSON spelling.
    Number(String),
    Str(String),
    Arr(Vec<Json>),
    Obj(Vec<(String, Json)>),
}

/// What a [`Json`] holds.
#[verifier::ext_equal]
pub enum JsonV {
    Null,
    Bool(bool),
    Uint(u64),
    Number(Seq<char>),
    Str(Seq<char>),
    Arr(Seq<JsonV>),
    Obj(Seq<(Seq<char>, JsonV)>),
}

impl View for Json {
    type V = JsonV;

    open spec fn view(&self) -> JsonV {
        json_view(*self)
    }
}

/// The view of a [`Json`], member by member.
pub open spec fn json_view(j: Json) -> JsonV
    decreases j,
{
    match j {
        Json::Null => JsonV::Null,
        Json::Bool(b) => JsonV::Bool(b),
        Json::Uint(n) => JsonV::Uint(n),
        Json::Number(s) => JsonV::Number(s@),
        Json::Str(s) => JsonV::Str(s@),
        Json::Arr(v) => JsonV::Arr(
            Seq::new(
                v@.len(),
                |i: int|
                    if 0 <= i < v@.len() {
                        json_view(v@[i])
                    } else {
                        JsonV::Null
                    },
            ),
        ),
        Json::Obj(m) => JsonV::Obj(
            Seq::new(
                m@.len(),
                |i: int|
                    if 0 <= i < m@.len() {
                        (m@[i].0@, json_view(m@[i].1))
                    } else {
                        (Seq::empty(), JsonV::Null)
                    },
            ),
        ),
    }
}

impl Clone for Json {
    fn clone(&self) -> (r: Self)
        ensures
            r@ == self@,
        decreases self,
    {
        match self {
            Json::Null => Json::Null,
            Json::Bool(b) => Json::Bool(*b),
            Json::Uint(n) => Json::Uint(*n),
            Json::Number(s) => Json::Number(s.clone()),
            Json::Str(s) => Json::Str(s.clone()),
            Json::Arr(v) => {
                let mut out: Vec<Json> = Vec::new();
                let mut i: usize = 0;
                while i < v.len()
                    invariant
                        0 <= i <= v.len(),
                        self == Json::Arr(*v),
                        out@.len() == i,
                        forall|k: int| 0 <= k < i ==> (#[trigger] out@[k])@ == v@[k]@,
                    decreases v.len() - i,
                {
                    assert(decreases_to!(*self => self->Arr_0@[i as int]));
                    let c = v[i].clone();
                    out.push(c);
                    i = i + 1;
                }
                let r = Json::Arr(out);
                assert(r@->Arr_0 =~= self@->Arr_0);
                r
            },
            Json::Obj(m) => {
                let mut out: Vec<(String, Json)> = Vec::new();
                let mut i: usize = 0;
                while i < m.len()
                    invariant
                        0 <= i <= m.len(),
                        self == Json::Obj(*m),
                        out@.len() == i,
                        forall|k: int|
                            0 <= k < i ==> (#[trigger] out@[k]).0@ == m@[k].0@ && out@[k].1@
                                == m@[k].1@,
                    decreases m.len() - i,
                {
                    assert(decreases_to!(*self => self->Obj_0@[i as int]));
                    assert(decreases_to!(m@[i as int] => m@[i as int].1));
                    let c = m[i].1.clone();
                    out.push((m[i].0.clone(), c));
                    i = i + 1;
                }
                let r = Json::Obj(out);
                assert(r@->Obj_0 =~= self@->Obj_0);
                r
            },
        }
    }
}

/// The value under `key` in a list of members: the first one of that name.
pub open spec fn member(m: Seq<(Seq<char>, JsonV)>, key: Seq<char>) -> Option<JsonV>
    decreases m.len(),
{
    if m.len() == 0 {
        None
    } else if m[0].0 == key {
        Some(m[0].1)
    } else {
        member(m.drop_first(), key)
    }
}

/// The value under `key`, where `j` is an object that has it.
pub open spec fn field(j: JsonV, key: Seq<char>) -> Option<JsonV> {
    match j {
        JsonV::Obj(m) => member(m, key),
        _ => None,
    }
}

/// The text under `key`, where there is one.
pub open spec fn text_at(j: JsonV, key: Seq<char>) -> Option<Seq<char>> {
    match field(j, key) {
        Some(JsonV::Str(s)) => Some(s),
        _ => None,
    }
}

/// The flag under `key`, where there is one.
pub open spec fn bool_at(j: JsonV, key: Seq<char>) -> Option<bool> {
    match field(j, key) {
        Some(JsonV::Bool(b)) => Some(b),
        _ => None,
    }
}

/// The unsigned integer under `key`, where there is one.
pub open spec fn uint_at(j: JsonV, key: Seq<char>) -> Option<u64> {
    match field(j, key) {
        Some(JsonV::Uint(n)) => Some(n),
        _ => None,
    }
}

/// The array under `key`, where there is one.
pub open spec fn array_at(j: JsonV, key: Seq<char>) -> Option<Seq<JsonV>> {
    match field(j, key) {
        Some(JsonV::Arr(v)) => Some(v),
        _ => None,
    }
}

impl JsonV {
    /// This object with one more member; any other value unchanged.
    pub open spec fn put(self, key: Seq<char>, value: JsonV) -> JsonV {
        match self {
            JsonV::Obj(m) => JsonV::Obj(m.push((key, value))),
            _ => self,
        }
    }
}

/// The object without members.
pub open spec fn no_members() -> JsonV {
    JsonV::Obj(Seq::empty())
}

/// The views of a list of values.
pub open spec fn views(v: Seq<Json>) -> Seq<JsonV> {
    Seq::new(v.len(), |i: int| v[i]@)
}

impl Json {
    /// The value under `key`, where this is an object that has it.
    pub fn get(&self, key: &str) -> (r: Option<&Json>)
        ensures
            match r {
                Some(j) => field(self@, key@) == Some(j@),
                None => field(self@, key@) is None,
            },
    {
        match self {
            Json::Obj(m) => {
                let mut i: usize = 0;
                let ghost all = self@->Obj_0;
                assert(all.skip(0) == all);
                while i < m.len()
                    invariant
                        0 <= i <= m.len(),
                        self == Json::Obj(*m),
                        all == self@->Obj_0,
                        member(all.skip(i as int), key@) == member(all, key@),
                    decreases m.len() - i,
                {
                    assert(all[i as int] == (m@[i as int].0@, m@[i as int].1@));
                    if same(m[i].0.as_str(), key) {
                        return Some(&m[i].1);
                    }
                    assert(all.skip(i as int).drop_first() == all.skip(i + 1));
                    i = i + 1;
                }
                None
            },
            _ => None,
        }
    }

    /// The text, where this is one.
    pub fn as_str(&self) -> (r: Option<&str>)
        ensures
            match r {
                Some(s) => self@ == JsonV::Str(s@),
                None => self@ !is Str,
            },
    {
        match self {
            Json::Str(s) => Some(s.as_str()),
            _ => None,
        }
    }

    /// The text under `key`, where there is one.
    pub fn text_field(&self, key: &str) -> (r: Option<&str>)
        ensures
            match r {
                Some(s) => text_at(self@, key@) == Some(s@),
                None => text_at(self@, key@) is None,
            },
    {
        match self.get(key) {
            Some(j) => j.as_str(),
            None => None,
        }
    }

    /// The flag under `key`, where there is one.
    pub fn bool_field(&self, key: &str) -> (r: Option<bool>)
        ensures
            r == bool_at(self@, key@),
    {
        match self.get(key) {
            Some(Json::Bool(b)) => Some(*b),
            _ => None,
        }
    }

    /// The unsigned integer under `key`, where there is one.
    pub fn uint_field(&self, key: &str) -> (r: Option<u64>)
        ensures
            r == uint_at(self@, key@),
    {
        match self.get(key) {
            Some(Json::Uint(n)) => Some(*n),
            _ => None,
        }
    }

    /// The array under `key`, where there is one.
    pub fn array_field(&self, key: &str) -> (r: Option<&Vec<Json>>)
        ensures
            match r {
                Some(v) => array_at(self@, key@) == Some(views(v@)),
                None => array_at(self@, key@) is None,
            },
    {
        match self.get(key) {
            Some(Json::Arr(v)) => {
                proof {
                    let j = Json::Arr(*v);
                    assert(j@->Arr_0 =~= views(v@));
                }
                Some(v)
            },
            _ => None,
        }
    }

    /// A text value.
    pub fn text(s: &str) -> (r: Json)
        ensures
            r@ == JsonV::Str(s@),
    {
        Json::Str(s.to_owned())
    }

    /// An object without members.
    pub fn object() -> (r: Json)
        ensures
            r@ == no_members(),
    {
        let r = Json::Obj(Vec::new());
        assert(r@->Obj_0 =~= Seq::empty());
        r
    }

    /// The array of `v`.
    pub fn array(v: Vec<Json>) -> (r: Json)
        ensures
            r@ == JsonV::Arr(views(v@)),
    {
        let r = Json::Arr(v);
        assert(r@->Arr_0 =~= views(v@));
        r
    }

    /// This object with one more member; any other value unchanged.
    pub fn with(self, key: &str, value: Json) -> (r: Json)
        ensures
            r@ == self@.put(key@, value@),
    {
        match self {
            Json::Obj(mut m) => {
                let ghost before = self@->Obj_0;
                m.push((key.to_owned(), value));
                let r = Json::Obj(m);
                assert(r@->Obj_0 =~= before.push((key@, value@)));
                r
            },
            _ => self,
        }
    }
}

/// An object whose members are texts, flags, unsigned integers and nulls, under
/// names that differ.
pub open spec fn flat(j: JsonV) -> bool {
    j matches JsonV::Obj(m) && (forall|i: int|
        0 <= i < m.len() ==> (#[trigger] m[i]).1 is Null || m[i].1 is Bool || m[i].1 is Uint
            || m[i].1 is Str) && (forall|i: int, k: int|
        0 <= i < k < m.len() ==> (#[trigger] m[i]).0 != (#[trigger] m[k]).0)
}

/// Two values with the same members, in whatever order.
pub open spec fn same_fields(a: JsonV, b: JsonV) -> bool {
    forall|key: Seq<char>| #[trigger] field(a, key) == field(b, key)
}

/// A member that is put last stands under its name, where no other one does,
/// and leaves the others as they are.
pub proof fn put_is_found(m: Seq<(Seq<char>, JsonV)>, key: Seq<char>, value: JsonV, other: Seq<char>)
    ensures
        member(m, key) is None ==> member(m.push((key, value)), key) == Some(value),
        other != key ==> member(m.push((key, value)), other) == member(m, other),
    decreases m.len(),
{
    let w = m.push((key, value));
    if m.len() > 0 {
        put_is_found(m.drop_first(), key, value, other);
        assert(w.drop_first() =~= m.drop_first().push((key, value)));
    } else {
        assert(w.drop_first() =~= Seq::empty());
        assert(member(w.drop_first(), other) is None);
    }
}

/// What `serde_json::from_str` reads from a text as a `serde_json::Value`;
/// `None` where it refuses the text.
pub uninterp spec fn json_text(text: Seq<char>) -> Option<JsonV>;

/// What `serde_json::from_str` has against a text that is to be a
/// `serde_json::Value`; `None` where it reads the text.
pub uninterp spec fn json_error(text: Seq<char>) -> Option<Seq<char>>;

/// What a `serde_json::Value` is displayed as.
pub uninterp spec fn json_line(j: JsonV) -> Seq<char>;

/// What `serde_json::from_str` reads from a text as a `String`; `None` where
/// it refuses the text.
pub uninterp spec fn json_string(text: Seq<char>) -> Option<Seq<char>>;

/// What `serde_json::to_string` writes for a text.
pub uninterp spec fn json_quoted(s: Seq<char>) -> Seq<char>;

/// `serde_json::from_str::<serde_json::Value>`, the value turned member by
/// member into a [`Json`]. The result is named by [`json_text`].
#[verifier::external_body]
pub(crate) fn parse_json(text: &str) -> (r: Option<Json>)
    ensures
        match r {
            Some(j) => json_text(text@) == Some(j@),
            None => json_text(text@) is None,
        },
{
    Some(match serde_json::from_str::<Value>(text).ok()? {
        Value::Null => Json::Null,
        Value::Bool(b) => Json::Bool(b),
        Value::Number(n) => n.as_u64().map_or_else(|| Json::Number(n.to_string()), Json::Uint),
        Value::String(s) => Json::Str(s),
        Value::Array(a) => {
            Json::Arr(a.iter().map(|v| parse_json(&v.to_string())).collect::<Option<_>>()?)
        }
        Value::Object(m) => Json::Obj(m.iter()
            .map(|(k, v)| Some((k.clone(), parse_json(&v.to_string())?)))
            .collect::<Option<_>>()?),
    })
}

/// The error of `serde_json::from_str::<serde_json::Value>`, as its `Display`
/// writes it. The result is named by [`json_error`]; there is one exactly where
/// nothing is read.
#[verifier::external_body]
pub(crate) fn json_problem(text: &str) -> (r: Option<String>)
    ensures
        opt_text(r) == json_error(text@),
        r is None == json_text(text@) is Some,
{
    serde_json::from_str::<Value>(text).err().map(|e| e.to_string())
}

/// The `Display` of the `serde_json::Value` that a [`Json`] stands for, its
/// members written in the order of their names. The result is named by
/// [`json_line`]; it holds no line feed, since a control character inside a text
/// is written as an escape. A flat object reads back with the same members.
#[verifier::external_body]
pub(crate) fn render_json(j: &Json) -> (r: String)
    ensures
        r@ == json_line(j@),
        !r@.contains('\n'),
        flat(j@) ==> json_text(r@) is Some && same_fields(json_text(r@)->0, j@),
{
    let built = |x: &Json| {
        let text = render_json(x);
        let mut de = Deserializer::from_str(&text);
        de.disable_recursion_limit();
        Value::deserialize(&mut de).unwrap_or_default()
    };
    match j {
        Json::Bool(b) => Value::from(*b),
        Json::Uint(n) => Value::from(*n),
        Json::Number(s) => s.parse().map_or(Value::Null, Value::Number),
        Json::Str(s) => Value::from(s.as_str()),
        Json::Arr(v) => v.iter().map(built).collect(),
        Json::Obj(m) => m.iter().map(|(k, x)| (k.as_str(), built(x))).collect(),
        Json::Null => Value::Null,
    }.to_string()
}

/// `serde_json::from_str::<String>`, named by [`json_string`].
#[verifier::external_body]
pub(crate) fn parse_json_string(text: &str) -> (r: Option<String>)
    ensures
        match r {
            Some(s) => json_string(text@) == Some(s@),
            None => json_string(text@) is None,
        },
{
    serde_json::from_str::<String>(text).ok()
}

/// `serde_json::to_string` on a text, named by [`json_quoted`]. What it writes
/// starts with a quotation mark, holds no line feed or carriage return (a
/// control character is written as an escape), and reads back as the text.
#[verifier::external_body]
pub(crate) fn quote_json(s: &str) -> (r: String)
    ensures
        r@ == json_quoted(s@),
        r@.len() >= 2,
        r@[0] == '"',
        r@.last() == '"',
        !r@.contains('\n'),
        !r@.contains('\r'),
        json_string(r@) == Some(s@),
{
    serde_json::to_string(s).unwrap_or_default()
}

/// A member that is put into an object is read back under its name, unless the
/// object had one of that name already; every other member reads as before.
pub broadcast proof fn put_reads(j: JsonV, key: Seq<char>, value: JsonV, name: Seq<char>)
    ensures
        #[trigger] field(j.put(key, value), name) == (if j is Obj && name == key && field(j, key)
            is None {
            Some(value)
        } else {
            field(j, name)
        }),
{
    if let JsonV::Obj(m) = j {
        put_is_found(m, key, value, name);
        put_stays(m, key, value);
    }
}

proof fn put_stays(m: Seq<(Seq<char>, JsonV)>, key: Seq<char>, value: JsonV)
    ensures
        member(m, key) is Some ==> member(m.push((key, value)), key) == member(m, key),
    decreases m.len(),
{
    if m.len() > 0 && m[0].0 != key {
        put_stays(m.drop_first(), key, value);
        assert(m.push((key, value)).drop_first() =~= m.drop_first().push((key, value)));
    }
}

/// An object without members has none of any name.
pub broadcast proof fn nothing_reads(name: Seq<char>)
    ensures
        #[trigger] field(no_members(), name) is None,
{
}

/// A member is the first of its name, and only what is there is found.
pub proof fn members_are_found_by_name(m: Seq<(Seq<char>, JsonV)>, key: Seq<char>, i: int)
    ensures
        0 <= i < m.len() && m[i].0 == key && (forall|k: int| 0 <= k < i ==> (#[trigger] m[k]).0 != key)
            ==> field(JsonV::Obj(m), key) == Some(m[i].1),
        (forall|k: int| 0 <= k < m.len() ==> (#[trigger] m[k]).0 != key) ==> field(
            JsonV::Obj(m),
            key,
        ) is None,
    decreases m.len(),
{
    if m.len() > 0 && m[0].0 != key {
        let t = m.drop_first();
        members_are_found_by_name(t, key, i - 1);
        if 0 <= i < m.len() && m[i].0 == key && (forall|k: int|
            0 <= k < i ==> (#[trigger] m[k]).0 != key) {
            assert(t[i - 1] == m[i]);
            assert forall|k: int| 0 <= k < i - 1 implies (#[trigger] t[k]).0 != key by {
                assert(t[k] == m[k + 1]);
            }
        }
        if forall|k: int| 0 <= k < m.len() ==> (#[trigger] m[k]).0 != key {
            assert forall|k: int| 0 <= k < t.len() implies (#[trigger] t[k]).0 != key by {
                assert(t[k] == m[k + 1]);
            }
        }
    } else if 0 < i < m.len() {
        assert(m[0].0 == key);
    }
}

/// A member is read as what it is and as nothing else: no text is a flag, and no flag a
/// number.
pub proof fn members_are_read_by_kind(
    j: JsonV,
    key: Seq<char>,
    s: Seq<char>,
    b: bool,
    n: u64,
    v: Seq<JsonV>,
)
    ensures
        text_at(j, key) == Some(s) <==> field(j, key) == Some(JsonV::Str(s)),
        bool_at(j, key) == Some(b) <==> field(j, key) == Some(JsonV::Bool(b)),
        uint_at(j, key) == Some(n) <==> field(j, key) == Some(JsonV::Uint(n)),
        array_at(j, key) == Some(v) <==> field(j, key) == Some(JsonV::Arr(v)),
        !(j is Obj) ==> field(j, key) is None,
{
}

} // verus!
