//! `hotl serve`: a detached session that clients attach to and leave.
//!
//! When the agent asks for permission while no client is attached, the ask is
//! parked and issued again the moment one connects, so that a detached session
//! can still act once its human returns. Stream frames that arrive meanwhile
//! are dropped; parked asks are not. Spans and instants are nanoseconds.
use crate::config::as_deref;
use crate::engine::{
    opt_json, text_or_null, AskReply, AskReplyV, EgressDecision, EngineEvent, EngineEventV,
    QuestionAnswer, QuestionAnswerV,
};
use crate::images::{images_of, parse_images, pictures, UserImage};
use crate::json::{
    bool_at, field, flat, json_line, json_text, no_members, nothing_reads, parse_json, put_is_found,
    put_reads, render_json, same_fields, text_at, uint_at, Json, JsonV,
};
use crate::measure::decimal_wide;
use crate::paths::{join, joined_path};
use crate::text::{
    decimal_of, occurs, occurs_at, opt_str, opt_text, same, texts, trim, trimmed,
};
use vstd::prelude::*;
use vstd::string::*;
use vstd::utf8::*;

verus! {

/// The version of stream and outcome payloads.
pub const UPDATE_SCHEMA_VERSION: u64 = 1;

/// What a surface prints after a human allows a host.
pub open spec fn hint_text(host: Seq<char>) -> Seq<char> {
    "  allowed \""@ + host
        + "\" for this session\n  to make it permanent, add to your config.toml:\n      [network]\n      allow = [\""@
        + host + "\"]"@
}

/// What a surface prints after a human allows a host: the grant is for the
/// session, and the line to paste makes it permanent.
pub fn paste_hint(host: &str) -> (r: String)
    ensures
        r@ == hint_text(host@),
{
    let mut s = "  allowed \"".to_owned();
    s.append(host);
    s.append(
        "\" for this session\n  to make it permanent, add to your config.toml:\n      [network]\n      allow = [\"",
    );
    s.append(host);
    s.append("\"]");
    s
}

/// The coarsest that the expiry sweep ever runs.
pub const ASK_SWEEP_INTERVAL: u128 = 5_000_000_000;

/// The tick of the expiry sweep: never longer than the deadline itself and
/// never zero, which would spin.
pub fn sweep_period(ask_expiry: u128) -> (r: u128)
    ensures
        r == (if ask_expiry == 0 || ask_expiry > ASK_SWEEP_INTERVAL {
            ASK_SWEEP_INTERVAL
        } else {
            ask_expiry
        }),
        r > 0,
        ask_expiry > 0 ==> r <= ask_expiry,
{
    if ask_expiry == 0 || ask_expiry > ASK_SWEEP_INTERVAL {
        ASK_SWEEP_INTERVAL
    } else {
        ask_expiry
    }
}

/// The directory of the live sessions' sockets.
pub fn run_dir(data_dir: &str) -> (r: String)
    ensures
        r@ == joined_path(data_dir@, "run"@),
{
    join(data_dir, "run")
}

/// The file that holds a session's secret.
pub fn token_path(data_dir: &str, id: &str) -> (r: String)
    ensures
        r@ == joined_path(joined_path(data_dir@, "run"@), id@ + ".token"@),
{
    let mut file = id.to_owned();
    file.append(".token");
    join(run_dir(data_dir).as_str(), file.as_str())
}

/// The hexadecimal digit for a number below sixteen.
pub open spec fn hex_digit(n: nat) -> char {
    if n < 10 {
        (48 + n) as u8 as char
    } else {
        (87 + n) as u8 as char
    }
}

/// Two hexadecimal digits for each byte.
pub open spec fn hex_of(b: Seq<u8>) -> Seq<char>
    decreases b.len(),
{
    if b.len() == 0 {
        Seq::empty()
    } else {
        hex_of(b.drop_last()).push(hex_digit(b.last() as nat / 16)).push(
            hex_digit(b.last() as nat % 16),
        )
    }
}

fn hex(n: u8) -> (c: char)
    requires
        n < 16,
    ensures
        c == hex_digit(n as nat),
{
    if n < 10 {
        (48u8 + n) as char
    } else {
        (87u8 + n) as char
    }
}

/// The session secret: the random bytes in hexadecimal.
pub fn mint_token(bytes: &[u8]) -> (r: String)
    ensures
        r@ == hex_of(bytes@),
{
    let mut s = String::new();
    let mut i: usize = 0;
    while i < bytes.len()
        invariant
            0 <= i <= bytes.len(),
            s@ == hex_of(bytes@.take(i as int)),
        decreases bytes.len() - i,
    {
        s.push(hex(bytes[i] / 16));
        s.push(hex(bytes[i] % 16));
        assert(bytes@.take(i + 1).drop_last() =~= bytes@.take(i as int));
        i = i + 1;
    }
    assert(bytes@.take(i as int) =~= bytes@);
    s
}

/// Different random bytes give different secrets, two digits for each byte.
pub proof fn secrets_keep_all_entropy(a: Seq<u8>, b: Seq<u8>)
    requires
        a.len() == b.len(),
        hex_of(a) == hex_of(b),
    ensures
        a == b,
        hex_of(a).len() == 2 * a.len(),
    decreases a.len(),
{
    if a.len() > 0 {
        let x = hex_of(a);
        let y = hex_of(b);
        let p = a.drop_last();
        let q = b.drop_last();
        assert(x.drop_last().drop_last() =~= hex_of(p));
        assert(y.drop_last().drop_last() =~= hex_of(q));
        secrets_keep_all_entropy(p, q);
        assert(x.last() == hex_digit(a.last() as nat % 16));
        assert(x.drop_last().last() == hex_digit(a.last() as nat / 16));
        assert(y.last() == hex_digit(b.last() as nat % 16));
        assert(y.drop_last().last() == hex_digit(b.last() as nat / 16));
        assert(a.last() == b.last());
        assert(a =~= p.push(a.last()));
        assert(b =~= q.push(b.last()));
    } else {
        assert(a =~= b);
    }
}

proof fn or_xor_is_zero(acc: u8, x: u8, y: u8)
    by (bit_vector)
    ensures
        (acc | (x ^ y)) == 0 <==> acc == 0 && x == y,
{
}

/// Compares two secrets without stopping at the first difference.
pub fn tokens_match(a: &str, b: &str) -> (r: bool)
    ensures
        r == (a@ == b@),
{
    let x = a.as_bytes();
    let y = b.as_bytes();
    proof {
        encode_utf8_decode_utf8(a@);
        encode_utf8_decode_utf8(b@);
    }
    if x.len() != y.len() {
        return false;
    }
    let mut acc: u8 = 0;
    let mut i: usize = 0;
    assert(x@.take(0) =~= y@.take(0));
    while i < x.len()
        invariant
            x.len() == y.len(),
            0 <= i <= x.len(),
            acc == 0 <==> x@.take(i as int) == y@.take(i as int),
        decreases x.len() - i,
    {
        proof {
            or_xor_is_zero(acc, x@[i as int], y@[i as int]);
            assert(x@.take(i + 1) =~= x@.take(i as int).push(x@[i as int]));
            assert(y@.take(i + 1) =~= y@.take(i as int).push(y@[i as int]));
            if x@.take(i + 1) == y@.take(i + 1) {
                assert(x@.take(i + 1).last() == y@.take(i + 1).last());
                assert(x@.take(i as int) =~= x@.take(i + 1).drop_last());
                assert(y@.take(i as int) =~= y@.take(i + 1).drop_last());
            }
        }
        acc = acc | (x[i] ^ y[i]);
        i = i + 1;
    }
    assert(x@.take(i as int) =~= x@);
    assert(y@.take(i as int) =~= y@);
    acc == 0
}

/// Whether a frame presents the secret.
pub open spec fn presents(msg: JsonV, token: Seq<char>) -> bool {
    text_at(msg, "t"@) == Some("auth"@) && text_at(msg, "token"@) == Some(token)
}

/// Whether a frame presents the secret.
pub fn frame_presents(msg: &Json, token: &str) -> (r: bool)
    ensures
        r == presents(msg@, token@),
{
    match msg.text_field("t") {
        Some(t) => {
            if !same(t, "auth") {
                return false;
            }
        },
        None => {
            return false;
        },
    }
    match msg.text_field("token") {
        Some(t) => tokens_match(t, token),
        None => false,
    }
}

/// Whether a client's first line authenticates it.
pub fn auth_frame_ok(line: &str, token: &str) -> (r: bool)
    ensures
        r == (json_text(line@) matches Some(msg) && presents(msg, token@)),
{
    match parse_json(line) {
        Some(msg) => frame_presents(&msg, token),
        None => false,
    }
}

/// A parked ask: its id, the frame to send again, and when it was parked.
#[derive(Debug)]
pub struct Parked {
    pub id: u64,
    pub frame: Json,
    pub at: u128,
}

/// The view of a [`Parked`].
pub struct ParkedV {
    pub id: u64,
    pub frame: JsonV,
    pub at: u128,
}

impl View for Parked {
    type V = ParkedV;

    open spec fn view(&self) -> ParkedV {
        ParkedV { id: self.id, frame: self.frame@, at: self.at }
    }
}

/// The views of parked asks.
pub open spec fn parked(v: Seq<Parked>) -> Seq<ParkedV> {
    Seq::new(v.len(), |i: int| v[i]@)
}

/// The session server's own state.
#[derive(Debug)]
pub struct Server {
    asks: Vec<Parked>,
    questions: Vec<Parked>,
    egress: Vec<Parked>,
    next_ask: u64,
    session_id: String,
    token: String,
    ask_expiry: u128,
    attached: bool,
}

/// The view of a [`Server`].
#[verifier::ext_equal]
pub struct ServerV {
    pub asks: Seq<ParkedV>,
    pub questions: Seq<ParkedV>,
    pub egress: Seq<ParkedV>,
    pub next_ask: u64,
    pub session_id: Seq<char>,
    pub token: Seq<char>,
    pub ask_expiry: u128,
    pub attached: bool,
}

impl View for Server {
    type V = ServerV;

    closed spec fn view(&self) -> ServerV {
        ServerV {
            asks: parked(self.asks@),
            questions: parked(self.questions@),
            egress: parked(self.egress@),
            next_ask: self.next_ask,
            session_id: self.session_id@,
            token: self.token@,
            ask_expiry: self.ask_expiry,
            attached: self.attached,
        }
    }
}

/// Ids that never repeat, all below `next`.
pub open spec fn ids_ok(v: Seq<ParkedV>, next: u64) -> bool {
    &&& forall|i: int| 0 <= i < v.len() ==> (#[trigger] v[i]).id < next
    &&& forall|i: int, j: int|
        0 <= i < j < v.len() ==> (#[trigger] v[i]).id != (#[trigger] v[j]).id
}

/// No id of `a` is one of `b`.
pub open spec fn disjoint_ids(a: Seq<ParkedV>, b: Seq<ParkedV>) -> bool {
    forall|i: int, j: int|
        0 <= i < a.len() && 0 <= j < b.len() ==> (#[trigger] a[i]).id != (#[trigger] b[j]).id
}

impl ServerV {
    /// An id is given once and never means two things.
    pub open spec fn wf(self) -> bool {
        &&& ids_ok(self.asks, self.next_ask)
        &&& ids_ok(self.questions, self.next_ask)
        &&& ids_ok(self.egress, self.next_ask)
        &&& disjoint_ids(self.asks, self.questions)
        &&& disjoint_ids(self.asks, self.egress)
        &&& disjoint_ids(self.questions, self.egress)
    }
}

/// Whether `id` is parked in `v`.
pub open spec fn holds_id(v: Seq<ParkedV>, id: u64) -> bool {
    exists|i: int| 0 <= i < v.len() && (#[trigger] v[i]).id == id
}

/// `v` without the asks whose id satisfies `gone`.
pub open spec fn without(v: Seq<ParkedV>, gone: spec_fn(ParkedV) -> bool) -> Seq<ParkedV>
    decreases v.len(),
{
    if v.len() == 0 {
        Seq::empty()
    } else {
        let before = without(v.drop_last(), gone);
        if gone(v.last()) {
            before
        } else {
            before.push(v.last())
        }
    }
}

/// The ids in `v` whose ask satisfies `gone`.
pub open spec fn ids_where(v: Seq<ParkedV>, gone: spec_fn(ParkedV) -> bool) -> Seq<u64>
    decreases v.len(),
{
    if v.len() == 0 {
        Seq::empty()
    } else {
        let before = ids_where(v.drop_last(), gone);
        if gone(v.last()) {
            before.push(v.last().id)
        } else {
            before
        }
    }
}

/// The ask is the one with the id `id`.
pub open spec fn is_id(id: u64) -> spec_fn(ParkedV) -> bool {
    |p: ParkedV| p.id == id
}

/// The ask's reply channel is closed.
pub open spec fn is_closed(closed: Seq<u64>) -> spec_fn(ParkedV) -> bool {
    |p: ParkedV| closed.contains(p.id)
}

/// The ask has waited for `expiry` at the instant `now`.
pub open spec fn is_expired(now: u128, expiry: u128) -> spec_fn(ParkedV) -> bool {
    |p: ParkedV| crate::keysource::age(now, p.at) >= expiry
}

proof fn without_is_sub(v: Seq<ParkedV>, gone: spec_fn(ParkedV) -> bool)
    ensures
        without(v, gone).len() <= v.len(),
        forall|i: int|
            0 <= i < without(v, gone).len() ==> v.contains(#[trigger] without(v, gone)[i]) && !gone(
                without(v, gone)[i],
            ),
        forall|i: int|
            0 <= i < v.len() && !gone(#[trigger] v[i]) ==> without(v, gone).contains(v[i]),
    decreases v.len(),
{
    if v.len() > 0 {
        let t = v.drop_last();
        without_is_sub(t, gone);
        let w = without(v, gone);
        let u = without(t, gone);
        assert forall|i: int| 0 <= i < w.len() implies v.contains(#[trigger] w[i]) && !gone(
            w[i],
        ) by {
            if i < u.len() {
                assert(w[i] == u[i]);
                let k = choose|k: int| 0 <= k < t.len() && t[k] == u[i];
                assert(v[k] == w[i]);
            } else {
                assert(v[v.len() - 1] == w[i]);
            }
        }
        assert forall|i: int| 0 <= i < v.len() && !gone(#[trigger] v[i]) implies w.contains(
            v[i],
        ) by {
            if i < t.len() {
                assert(t[i] == v[i]);
                assert(u.contains(t[i]));
                let k = choose|k: int| 0 <= k < u.len() && u[k] == t[i];
                assert(w[k] == v[i]);
            } else {
                assert(w[w.len() - 1] == v[i]);
            }
        }
    }
}

proof fn without_keeps_ids(v: Seq<ParkedV>, gone: spec_fn(ParkedV) -> bool, next: u64)
    requires
        ids_ok(v, next),
    ensures
        ids_ok(without(v, gone), next),
    decreases v.len(),
{
    if v.len() > 0 {
        let t = v.drop_last();
        without_keeps_ids(t, gone, next);
        without_is_sub(t, gone);
        let w = without(v, gone);
        let u = without(t, gone);
        assert forall|i: int, j: int| 0 <= i < j < w.len() implies (#[trigger] w[i]).id != (
        #[trigger] w[j]).id by {
            if j < u.len() {
                assert(w[i] == u[i]);
                assert(w[j] == u[j]);
            } else {
                assert(w[i] == u[i]);
                let k = choose|k: int| 0 <= k < t.len() && t[k] == u[i];
                assert(v[k].id != v[v.len() - 1].id);
            }
        }
        assert forall|i: int| 0 <= i < w.len() implies (#[trigger] w[i]).id < next by {
            if i < u.len() {
                assert(w[i] == u[i]);
            }
        }
    }
}

proof fn without_keeps_disjoint(a: Seq<ParkedV>, b: Seq<ParkedV>, gone: spec_fn(ParkedV) -> bool)
    requires
        disjoint_ids(a, b),
    ensures
        disjoint_ids(without(a, gone), b),
        disjoint_ids(b, without(a, gone)),
{
    without_is_sub(a, gone);
    let w = without(a, gone);
    assert forall|i: int, j: int| 0 <= i < w.len() && 0 <= j < b.len() implies (
    #[trigger] w[i]).id != (#[trigger] b[j]).id by {
        let k = choose|k: int| 0 <= k < a.len() && a[k] == w[i];
        assert(a[k].id != b[j].id);
    }
}

fn in_ids(v: &[u64], id: u64) -> (r: bool)
    ensures
        r == v@.contains(id),
{
    let mut i: usize = 0;
    while i < v.len()
        invariant
            0 <= i <= v.len(),
            forall|k: int| 0 <= k < i ==> v@[k] != id,
        decreases v.len() - i,
    {
        if v[i] == id {
            return true;
        }
        i = i + 1;
    }
    false
}

/// Drops the asks whose reply channel is closed.
fn prune(v: &mut Vec<Parked>, closed: &[u64])
    ensures
        parked(final(v)@) == without(parked(old(v)@), is_closed(closed@)),
{
    let ghost start = parked(v@);
    let ghost gone = is_closed(closed@);
    let mut kept: Vec<Parked> = Vec::new();
    let mut rest: Vec<Parked> = Vec::new();
    std::mem::swap(v, &mut rest);
    let ghost all = rest@;
    let n: usize = rest.len();
    let mut i: usize = 0;
    assert(parked(kept@) =~= without(start.take(0), gone));
    while i < n
        invariant
            0 <= i <= n,
            n == all.len(),
            start == parked(all),
            gone == is_closed(closed@),
            rest@ == all.skip(i as int),
            parked(kept@) == without(start.take(i as int), gone),
        decreases n - i,
    {
        let p = rest.remove(0);
        assert(p == all[i as int]);
        assert(rest@ =~= all.skip(i + 1));
        assert(start.take(i + 1).drop_last() =~= start.take(i as int));
        assert(start[i as int] == p@);
        if !in_ids(closed, p.id) {
            let ghost before = parked(kept@);
            kept.push(p);
            assert(parked(kept@) =~= before.push(p@));
        }
        i = i + 1;
    }
    assert(start.take(i as int) =~= start);
    *v = kept;
}

/// Takes the ask with the id `id` out, where it is parked.
fn take_id(v: &mut Vec<Parked>, id: u64, Ghost(next): Ghost<u64>) -> (r: bool)
    requires
        ids_ok(parked(old(v)@), next),
    ensures
        r == holds_id(parked(old(v)@), id),
        parked(final(v)@) == without(parked(old(v)@), is_id(id)),
{
    let ghost start = parked(v@);
    let mut i: usize = 0;
    while i < v.len()
        invariant
            0 <= i <= v.len(),
            start == parked(v@),
            start == parked(old(v)@),
            ids_ok(start, next),
            forall|k: int| 0 <= k < i ==> (#[trigger] start[k]).id != id,
        decreases v.len() - i,
    {
        assert(start[i as int] == v@[i as int]@);
        if v[i].id == id {
            proof {
                without_one(start, id, i as int);
            }
            let _gone = v.remove(i);
            assert(parked(v@) =~= start.remove(i as int));
            return true;
        }
        i = i + 1;
    }
    proof {
        without_none(start, is_id(id));
    }
    false
}

proof fn without_none(v: Seq<ParkedV>, gone: spec_fn(ParkedV) -> bool)
    requires
        forall|k: int| 0 <= k < v.len() ==> !gone(#[trigger] v[k]),
    ensures
        without(v, gone) == v,
        ids_where(v, gone) == Seq::<u64>::empty(),
    decreases v.len(),
{
    if v.len() > 0 {
        let t = v.drop_last();
        assert forall|k: int| 0 <= k < t.len() implies !gone(#[trigger] t[k]) by {
            assert(t[k] == v[k]);
        }
        without_none(t, gone);
        assert(t.push(v.last()) =~= v);
    } else {
        assert(without(v, gone) =~= v);
    }
}

proof fn without_one(v: Seq<ParkedV>, id: u64, i: int)
    requires
        0 <= i < v.len(),
        v[i].id == id,
        forall|j: int, k: int|
            0 <= j < k < v.len() ==> (#[trigger] v[j]).id != (#[trigger] v[k]).id,
    ensures
        without(v, is_id(id)) == v.remove(i),
    decreases v.len(),
{
    let t = v.drop_last();
    let gone = is_id(id);
    if i == v.len() - 1 {
        assert forall|k: int| 0 <= k < t.len() implies !gone(#[trigger] t[k]) by {
            assert(t[k] == v[k]);
            assert(v[k].id != v[i].id);
        }
        without_none(t, gone);
        assert(v.remove(i) =~= t);
    } else {
        without_one(t, id, i);
        assert(v[i].id != v[v.len() - 1].id);
        assert(v.remove(i) =~= t.remove(i).push(v.last()));
    }
}

/// Takes out the asks that have waited for `expiry`, and gives their ids.
fn take_expired(v: &mut Vec<Parked>, now: u128, expiry: u128) -> (r: Vec<u64>)
    ensures
        r@ == ids_where(parked(old(v)@), is_expired(now, expiry)),
        parked(final(v)@) == without(parked(old(v)@), is_expired(now, expiry)),
{
    let ghost start = parked(v@);
    let ghost gone = is_expired(now, expiry);
    let mut kept: Vec<Parked> = Vec::new();
    let mut ids: Vec<u64> = Vec::new();
    let mut rest: Vec<Parked> = Vec::new();
    std::mem::swap(v, &mut rest);
    let ghost all = rest@;
    let n: usize = rest.len();
    let mut i: usize = 0;
    assert(parked(kept@) =~= without(start.take(0), gone));
    while i < n
        invariant
            0 <= i <= n,
            n == all.len(),
            start == parked(all),
            gone == is_expired(now, expiry),
            rest@ == all.skip(i as int),
            parked(kept@) == without(start.take(i as int), gone),
            ids@ == ids_where(start.take(i as int), gone),
        decreases n - i,
    {
        let p = rest.remove(0);
        assert(p == all[i as int]);
        assert(rest@ =~= all.skip(i + 1));
        assert(start.take(i + 1).drop_last() =~= start.take(i as int));
        assert(start[i as int] == p@);
        let waited: u128 = if now < p.at {
            0
        } else {
            now - p.at
        };
        if waited >= expiry {
            ids.push(p.id);
        } else {
            let ghost before = parked(kept@);
            kept.push(p);
            assert(parked(kept@) =~= before.push(p@));
        }
        i = i + 1;
    }
    assert(start.take(i as int) =~= start);
    *v = kept;
    ids
}

/// What one client frame asks of the session.
#[derive(Debug, PartialEq, Eq)]
pub enum Effect {
    Nothing,
    Prompt(String, Vec<UserImage>),
    Steer(String, Vec<UserImage>),
    Continue,
    Interrupt,
    AnswerAsk(u64, AskReply),
    AnswerQuestion(u64, QuestionAnswer),
    AnswerEgress(u64, EgressDecision),
    /// A frame that tells the client why its own was dropped.
    Refuse(Json),
    Detach,
    Shutdown,
}

/// The view of an [`Effect`].
#[verifier::ext_equal]
pub enum EffectV {
    Nothing,
    Prompt(Seq<char>, Seq<(Seq<char>, Seq<char>)>),
    Steer(Seq<char>, Seq<(Seq<char>, Seq<char>)>),
    Continue,
    Interrupt,
    AnswerAsk(u64, AskReplyV),
    AnswerQuestion(u64, QuestionAnswerV),
    AnswerEgress(u64, EgressDecision),
    Refuse(JsonV),
    Detach,
    Shutdown,
}

impl View for Effect {
    type V = EffectV;

    open spec fn view(&self) -> EffectV {
        match *self {
            Effect::Nothing => EffectV::Nothing,
            Effect::Prompt(t, i) => EffectV::Prompt(t@, pictures(i@)),
            Effect::Steer(t, i) => EffectV::Steer(t@, pictures(i@)),
            Effect::Continue => EffectV::Continue,
            Effect::Interrupt => EffectV::Interrupt,
            Effect::AnswerAsk(id, a) => EffectV::AnswerAsk(id, a@),
            Effect::AnswerQuestion(id, a) => EffectV::AnswerQuestion(id, a@),
            Effect::AnswerEgress(id, d) => EffectV::AnswerEgress(id, d),
            Effect::Refuse(j) => EffectV::Refuse(j@),
            Effect::Detach => EffectV::Detach,
            Effect::Shutdown => EffectV::Shutdown,
        }
    }
}

/// The text under `key`, or an empty one.
pub open spec fn text_or_empty(v: JsonV, key: Seq<char>) -> Seq<char> {
    match text_at(v, key) {
        Some(s) => s,
        None => Seq::empty(),
    }
}

/// The text under `key`, or an empty one.
pub fn str_field(v: &Json, key: &str) -> (r: String)
    ensures
        r@ == text_or_empty(v@, key@),
{
    match v.text_field(key) {
        Some(s) => s.to_owned(),
        None => String::new(),
    }
}

/// An error frame.
pub open spec fn error_frame(message: Seq<char>) -> JsonV {
    no_members().put("t"@, JsonV::Str("error"@)).put("message"@, JsonV::Str(message))
}

fn error_json(message: &str) -> (r: Json)
    ensures
        r@ == error_frame(message@),
{
    Json::object().with("t", Json::text("error")).with("message", Json::text(message))
}

/// The answer that an `ask_reply` frame gives: a grant only for `allow: true`.
pub open spec fn frame_ask_reply(msg: JsonV) -> AskReplyV {
    if bool_at(msg, "allow"@) == Some(true) {
        AskReplyV::Allow
    } else {
        AskReplyV::Deny(text_at(msg, "message"@))
    }
}

/// The answer that a `question_reply` frame gives: an option's label, else free
/// text, else nobody's.
pub open spec fn frame_question_answer(msg: JsonV) -> QuestionAnswerV {
    match text_at(msg, "option"@) {
        Some(o) => QuestionAnswerV::Selected(seq![o]),
        None => match text_at(msg, "text"@) {
            Some(t) => QuestionAnswerV::FreeText(t),
            None => QuestionAnswerV::NoHuman,
        },
    }
}

/// The answer that an `egress_reply` frame gives: a grant only for `allow: true`.
pub open spec fn frame_egress_decision(msg: JsonV) -> EgressDecision {
    if bool_at(msg, "allow"@) == Some(true) {
        EgressDecision::Allow
    } else {
        EgressDecision::Deny
    }
}

/// What a client frame does: the state after it, and what is asked of the
/// session. A frame whose images are refused is dropped whole, and the client
/// is told why; an answer to an ask that is not parked does nothing.
pub open spec fn frame_effect(s: ServerV, msg: JsonV) -> (ServerV, EffectV) {
    let t = text_or_empty(msg, "t"@);
    if t == "prompt"@ {
        match images_of(msg) {
            Ok(images) => (s, EffectV::Prompt(text_or_empty(msg, "text"@), images)),
            Err(e) => (s, EffectV::Refuse(error_frame("prompt: "@ + e))),
        }
    } else if t == "steer"@ {
        match images_of(msg) {
            Ok(images) => (s, EffectV::Steer(text_or_empty(msg, "text"@), images)),
            Err(e) => (s, EffectV::Refuse(error_frame("steer: "@ + e))),
        }
    } else if t == "continue"@ {
        (s, EffectV::Continue)
    } else if t == "cancel"@ {
        (s, EffectV::Interrupt)
    } else if t == "ask_reply"@ {
        match uint_at(msg, "id"@) {
            Some(id) if holds_id(s.asks, id) => (
                ServerV { asks: without(s.asks, is_id(id)), ..s },
                EffectV::AnswerAsk(id, frame_ask_reply(msg)),
            ),
            _ => (s, EffectV::Nothing),
        }
    } else if t == "question_reply"@ {
        match uint_at(msg, "id"@) {
            Some(id) if holds_id(s.questions, id) => (
                ServerV { questions: without(s.questions, is_id(id)), ..s },
                EffectV::AnswerQuestion(id, frame_question_answer(msg)),
            ),
            _ => (s, EffectV::Nothing),
        }
    } else if t == "egress_reply"@ {
        match uint_at(msg, "id"@) {
            Some(id) if holds_id(s.egress, id) => (
                ServerV { egress: without(s.egress, is_id(id)), ..s },
                EffectV::AnswerEgress(id, frame_egress_decision(msg)),
            ),
            _ => (s, EffectV::Nothing),
        }
    } else if t == "detach"@ {
        (ServerV { attached: false, ..s }, EffectV::Detach)
    } else if t == "shutdown"@ {
        (s, EffectV::Shutdown)
    } else {
        (s, EffectV::Nothing)
    }
}

proof fn frame_keeps_wf(s: ServerV, msg: JsonV)
    requires
        s.wf(),
    ensures
        frame_effect(s, msg).0.wf(),
{
    match uint_at(msg, "id"@) {
        Some(id) => {
            without_keeps_ids(s.asks, is_id(id), s.next_ask);
            without_keeps_ids(s.questions, is_id(id), s.next_ask);
            without_keeps_ids(s.egress, is_id(id), s.next_ask);
            without_keeps_disjoint(s.asks, s.questions, is_id(id));
            without_keeps_disjoint(s.asks, s.egress, is_id(id));
            without_keeps_disjoint(s.questions, s.asks, is_id(id));
            without_keeps_disjoint(s.questions, s.egress, is_id(id));
            without_keeps_disjoint(s.egress, s.asks, is_id(id));
            without_keeps_disjoint(s.egress, s.questions, is_id(id));
        },
        None => {},
    }
}

/// What an engine event does: the state after it, the id that was given to an
/// ask, and the frame for the client.
pub open spec fn event_effect(
    s: ServerV,
    e: EngineEventV,
    now: u128,
    closed: Seq<u64>,
) -> (ServerV, Option<u64>, Option<JsonV>) {
    let id = s.next_ask;
    let next = (id + 1) as u64;
    match e {
        EngineEventV::Ask(summary, why) => {
            let frame = no_members().put("t"@, JsonV::Str("ask"@)).put("id"@, JsonV::Uint(id)).put(
                "summary"@,
                JsonV::Str(summary),
            ).put("protectedWhy"@, text_or_null(why));
            (
                ServerV {
                    asks: s.asks.push(ParkedV { id, frame, at: now }),
                    next_ask: next,
                    ..s
                },
                Some(id),
                Some(frame),
            )
        },
        EngineEventV::Question { id: qid, header, prompt, options, multi } => {
            let frame = no_members().put("t"@, JsonV::Str("question"@)).put(
                "id"@,
                JsonV::Uint(id),
            ).put("questionId"@, JsonV::Str(qid)).put("header"@, JsonV::Str(header)).put(
                "prompt"@,
                JsonV::Str(prompt),
            ).put("options"@, options).put("multi"@, JsonV::Bool(multi));
            (
                ServerV {
                    questions: s.questions.push(ParkedV { id, frame, at: now }),
                    next_ask: next,
                    ..s
                },
                Some(id),
                Some(frame),
            )
        },
        EngineEventV::EgressAsk(host) => {
            let frame = no_members().put("t"@, JsonV::Str("egress"@)).put(
                "id"@,
                JsonV::Uint(id),
            ).put("host"@, JsonV::Str(host));
            (
                ServerV {
                    egress: s.egress.push(ParkedV { id, frame, at: now }),
                    next_ask: next,
                    ..s
                },
                Some(id),
                Some(frame),
            )
        },
        EngineEventV::TurnDone { outcome, usage, mispredictions } => {
            let done = no_members().put("t"@, JsonV::Str("turn_done"@)).put(
                "schemaVersion"@,
                JsonV::Uint(UPDATE_SCHEMA_VERSION),
            ).put("outcome"@, outcome).put("usage"@, usage);
            (
                ServerV {
                    asks: without(s.asks, is_closed(closed)),
                    egress: without(s.egress, is_closed(closed)),
                    ..s
                },
                None,
                Some(
                    if mispredictions > 0 {
                        done.put("mispredictions"@, JsonV::Uint(mispredictions))
                    } else {
                        done
                    },
                ),
            )
        },
        EngineEventV::Update(u) => (
            s,
            None,
            match u {
                Some(update) => Some(
                    no_members().put("t"@, JsonV::Str("update"@)).put("update"@, update),
                ),
                None => None,
            },
        ),
    }
}

proof fn event_keeps_wf(s: ServerV, e: EngineEventV, now: u128, closed: Seq<u64>)
    requires
        s.wf(),
        s.next_ask < u64::MAX,
    ensures
        event_effect(s, e, now, closed).0.wf(),
{
    let gone = is_closed(closed);
    without_keeps_ids(s.asks, gone, s.next_ask);
    without_keeps_ids(s.egress, gone, s.next_ask);
    without_keeps_disjoint(s.asks, s.questions, gone);
    without_keeps_disjoint(s.egress, s.questions, gone);
    without_keeps_disjoint(s.asks, s.egress, gone);
    without_keeps_disjoint(s.egress, without(s.asks, gone), gone);
}

/// `s` without the asks whose reply channel is closed.
pub open spec fn pruned(s: ServerV, closed: Seq<u64>) -> ServerV {
    ServerV {
        asks: without(s.asks, is_closed(closed)),
        questions: without(s.questions, is_closed(closed)),
        egress: without(s.egress, is_closed(closed)),
        ..s
    }
}

proof fn pruning_keeps_wf(s: ServerV, closed: Seq<u64>)
    requires
        s.wf(),
    ensures
        pruned(s, closed).wf(),
{
    let gone = is_closed(closed);
    let a = without(s.asks, gone);
    let q = without(s.questions, gone);
    without_keeps_ids(s.asks, gone, s.next_ask);
    without_keeps_ids(s.questions, gone, s.next_ask);
    without_keeps_ids(s.egress, gone, s.next_ask);
    without_keeps_disjoint(s.asks, s.questions, gone);
    without_keeps_disjoint(s.asks, s.egress, gone);
    without_keeps_disjoint(s.questions, s.egress, gone);
    without_keeps_disjoint(s.questions, a, gone);
    without_keeps_disjoint(s.egress, a, gone);
    without_keeps_disjoint(s.egress, q, gone);
}

/// The frames of parked asks.
pub open spec fn frames_of(v: Seq<ParkedV>) -> Seq<JsonV> {
    Seq::new(v.len(), |i: int| v[i].frame)
}

/// The greeting of a client.
pub open spec fn hello_frame(session_id: Seq<char>) -> JsonV {
    no_members().put("t"@, JsonV::Str("hello"@)).put("sessionId"@, JsonV::Str(session_id))
}

/// What a client that attaches is sent: the greeting, and then every parked
/// ask, question and egress ask.
pub open spec fn attach_frames(s: ServerV) -> Seq<JsonV> {
    seq![hello_frame(s.session_id)] + frames_of(s.asks) + frames_of(s.questions) + frames_of(
        s.egress,
    )
}

fn push_frames(out: &mut Vec<Json>, v: &[Parked])
    ensures
        crate::json::views(final(out)@) == crate::json::views(old(out)@) + frames_of(parked(v@)),
{
    let ghost start = crate::json::views(out@);
    let ghost fs = frames_of(parked(v@));
    let mut i: usize = 0;
    assert(start + fs.take(0) =~= start);
    while i < v.len()
        invariant
            0 <= i <= v.len(),
            fs == frames_of(parked(v@)),
            crate::json::views(out@) == start + fs.take(i as int),
        decreases v.len() - i,
    {
        let ghost before = crate::json::views(out@);
        let f = v[i].frame.clone();
        assert(f@ == fs[i as int]);
        out.push(f);
        assert(crate::json::views(out@) =~= before.push(fs[i as int]));
        i = i + 1;
        assert(fs.take(i as int) =~= fs.take(i - 1).push(fs[i - 1]));
    }
    assert(fs.take(i as int) =~= fs);
}

/// What became of a connection.
#[derive(Debug)]
pub enum Admission {
    /// Turned away, with the line to answer, if any. The session and the
    /// attached client are untouched.
    Refused(Option<String>),
    /// Let in: the frame for the client that it takes over from, if any, and
    /// the frames for the new one.
    Attached { farewell: Option<Json>, frames: Vec<Json> },
}

/// The frame for a client that is taken over.
pub open spec fn takeover_frame() -> JsonV {
    no_members().put("t"@, JsonV::Str("detached"@)).put(
        "reason"@,
        JsonV::Str("another client attached"@),
    )
}

/// The line that an unauthorized client is answered.
pub open spec fn unauthorized_line() -> Seq<char> {
    "{\"t\":\"error\",\"message\":\"unauthorized\"}\n"@
}

/// Whether a connection's peer and first line let it in.
pub open spec fn admitted(s: ServerV, peer_ok: bool, line: Option<Seq<char>>) -> bool {
    &&& peer_ok
    &&& line matches Some(l)
    &&& json_text(l) matches Some(msg)
    &&& presents(msg, s.token)
}

/// The asks that a sweep denied, and what to tell.
#[derive(Debug)]
pub struct Swept {
    pub asks: Vec<u64>,
    pub egress: Vec<u64>,
    /// The message that each denied permission ask is answered.
    pub message: String,
    /// The frame for the client, where anything expired.
    pub notice: Option<Json>,
}

/// The message of an expired ask.
pub open spec fn expiry_message(expiry: u128) -> Seq<char> {
    "expired after "@ + decimal_of(expiry as nat / 1_000_000_000) + " s with no human"@
}

/// The notice of a sweep that denied `n` asks.
pub open spec fn expiry_notice(n: nat, expiry: u128) -> JsonV {
    error_frame(
        decimal_of(n) + " parked ask(s) expired after "@ + decimal_of(
            expiry as nat / 1_000_000_000,
        ) + " s with no human and were denied"@,
    )
}

/// The state after a sweep: questions stay, whatever their age.
pub open spec fn swept(s: ServerV, now: u128) -> ServerV {
    if s.ask_expiry == 0 {
        s
    } else {
        ServerV {
            asks: without(s.asks, is_expired(now, s.ask_expiry)),
            egress: without(s.egress, is_expired(now, s.ask_expiry)),
            ..s
        }
    }
}

proof fn sweep_keeps_wf(s: ServerV, now: u128)
    requires
        s.wf(),
    ensures
        swept(s, now).wf(),
{
    let gone = is_expired(now, s.ask_expiry);
    let a = without(s.asks, gone);
    without_keeps_ids(s.asks, gone, s.next_ask);
    without_keeps_ids(s.egress, gone, s.next_ask);
    without_keeps_disjoint(s.asks, s.questions, gone);
    without_keeps_disjoint(s.asks, s.egress, gone);
    without_keeps_disjoint(s.egress, s.questions, gone);
    without_keeps_disjoint(s.egress, a, gone);
}

impl Server {
    /// A server with nothing parked and no client.
    pub fn new(session_id: String, token: String, ask_expiry: u128) -> (r: Self)
        ensures
            r@.wf(),
            r@ == (ServerV {
                asks: Seq::empty(),
                questions: Seq::empty(),
                egress: Seq::empty(),
                next_ask: 1,
                session_id: session_id@,
                token: token@,
                ask_expiry,
                attached: false,
            }),
    {
        let r = Server {
            asks: Vec::new(),
            questions: Vec::new(),
            egress: Vec::new(),
            next_ask: 1,
            session_id,
            token,
            ask_expiry,
            attached: false,
        };
        assert(r@.asks =~= Seq::empty());
        assert(r@.questions =~= Seq::empty());
        assert(r@.egress =~= Seq::empty());
        r
    }

    /// Whether a client is attached.
    pub fn is_attached(&self) -> (r: bool)
        ensures
            r == self@.attached,
    {
        self.attached
    }

    /// How many ids can still be given.
    pub fn ids_left(&self) -> (r: u64)
        ensures
            r == u64::MAX - self@.next_ask,
    {
        u64::MAX - self.next_ask
    }

    /// Applies one client frame.
    pub fn handle_value(&mut self, msg: &Json) -> (r: Effect)
        requires
            old(self)@.wf(),
        ensures
            final(self)@.wf(),
            (final(self)@, r@) == frame_effect(old(self)@, msg@),
    {
        proof {
            frame_keeps_wf(self@, msg@);
        }
        let t = str_field(msg, "t");
        let t = t.as_str();
        if same(t, "prompt") {
            return match parse_images(msg) {
                Ok(images) => Effect::Prompt(str_field(msg, "text"), images),
                Err(e) => {
                    let mut m = "prompt: ".to_owned();
                    m.append(e.as_str());
                    Effect::Refuse(error_json(m.as_str()))
                },
            };
        }
        if same(t, "steer") {
            return match parse_images(msg) {
                Ok(images) => Effect::Steer(str_field(msg, "text"), images),
                Err(e) => {
                    let mut m = "steer: ".to_owned();
                    m.append(e.as_str());
                    Effect::Refuse(error_json(m.as_str()))
                },
            };
        }
        if same(t, "continue") {
            return Effect::Continue;
        }
        if same(t, "cancel") {
            return Effect::Interrupt;
        }
        if same(t, "ask_reply") {
            if let Some(id) = msg.uint_field("id") {
                let ghost before = self@;
                if take_id(&mut self.asks, id, Ghost(before.next_ask)) {
                    let reply = if msg.bool_field("allow") == Some(true) {
                        AskReply::Allow
                    } else {
                        AskReply::Deny {
                            message: match msg.text_field("message") {
                                Some(m) => Some(m.to_owned()),
                                None => None,
                            },
                        }
                    };
                    assert(self@ =~= frame_effect(before, msg@).0);
                    return Effect::AnswerAsk(id, reply);
                }
                proof {
                    not_held_stays(before.asks, id);
                }
                assert(self@ =~= before);
            }
            return Effect::Nothing;
        }
        if same(t, "question_reply") {
            if let Some(id) = msg.uint_field("id") {
                let ghost before = self@;
                if take_id(&mut self.questions, id, Ghost(before.next_ask)) {
                    let answer = match msg.text_field("option") {
                        Some(o) => {
                            let mut v: Vec<String> = Vec::new();
                            v.push(o.to_owned());
                            assert(texts(v@) =~= seq![o@]);
                            QuestionAnswer::Selected(v)
                        },
                        None => match msg.text_field("text") {
                            Some(x) => QuestionAnswer::FreeText(x.to_owned()),
                            None => QuestionAnswer::NoHuman,
                        },
                    };
                    assert(self@ =~= frame_effect(before, msg@).0);
                    return Effect::AnswerQuestion(id, answer);
                }
                proof {
                    not_held_stays(before.questions, id);
                }
                assert(self@ =~= before);
            }
            return Effect::Nothing;
        }
        if same(t, "egress_reply") {
            if let Some(id) = msg.uint_field("id") {
                let ghost before = self@;
                if take_id(&mut self.egress, id, Ghost(before.next_ask)) {
                    let decision = if msg.bool_field("allow") == Some(true) {
                        EgressDecision::Allow
                    } else {
                        EgressDecision::Deny
                    };
                    assert(self@ =~= frame_effect(before, msg@).0);
                    return Effect::AnswerEgress(id, decision);
                }
                proof {
                    not_held_stays(before.egress, id);
                }
                assert(self@ =~= before);
            }
            return Effect::Nothing;
        }
        if same(t, "detach") {
            let ghost before = self@;
            self.attached = false;
            assert(self@ =~= frame_effect(before, msg@).0);
            return Effect::Detach;
        }
        if same(t, "shutdown") {
            return Effect::Shutdown;
        }
        Effect::Nothing
    }

    /// Applies one line from the client; a line that is not JSON does nothing.
    pub fn handle_frame(&mut self, line: &str) -> (r: Effect)
        requires
            old(self)@.wf(),
        ensures
            final(self)@.wf(),
            match json_text(line@) {
                Some(msg) => (final(self)@, r@) == frame_effect(old(self)@, msg),
                None => final(self)@ == old(self)@ && r@ == EffectV::Nothing,
            },
    {
        match parse_json(line) {
            Some(msg) => self.handle_value(&msg),
            None => Effect::Nothing,
        }
    }

    /// Takes in an engine event at the instant `now`; `closed` are the ids
    /// whose reply channel is closed. Gives the id of a new ask, under which
    /// its reply channel is to be held, and the frame for the client.
    pub fn on_event(&mut self, event: &EngineEvent, now: u128, closed: &[u64]) -> (r: (
        Option<u64>,
        Option<Json>,
    ))
        requires
            old(self)@.wf(),
            old(self)@.next_ask < u64::MAX,
        ensures
            final(self)@.wf(),
            ({
                let e = event_effect(old(self)@, event@, now, closed@);
                &&& final(self)@ == e.0
                &&& r.0 == e.1
                &&& e.2 == (match r.1 {
                    Some(j) => Some(j@),
                    None => None,
                })
            }),
            event@ matches EngineEventV::Update(Some(u)) ==> {
                &&& final(self)@ == old(self)@
                &&& r.1 matches Some(j)
                &&& text_at(j@, "t"@) == Some("update"@)
                &&& field(j@, "update"@) == Some(u)
            },
    {
        proof {
            event_keeps_wf(self@, event@, now, closed@);
            if let EngineEventV::Update(Some(u)) = event@ {
                updates_are_passed_on(self@, u, now, closed@);
            }
        }
        let ghost before = self@;
        match event {
            EngineEvent::Ask { summary, protected_why } => {
                let id: u64 = self.next_ask;
                self.next_ask = id + 1;
                let frame = Json::object().with("t", Json::text("ask")).with(
                    "id",
                    Json::Uint(id),
                ).with("summary", Json::text(summary.as_str())).with(
                    "protectedWhy",
                    opt_json(as_deref(protected_why)),
                );
                self.asks.push(Parked { id, frame: frame.clone(), at: now });
                assert(self@.asks =~= before.asks.push(ParkedV { id, frame: frame@, at: now }));
                assert(self@ =~= event_effect(before, event@, now, closed@).0);
                (Some(id), Some(frame))
            },
            EngineEvent::Question { id: qid, header, prompt, options, multi } => {
                let id: u64 = self.next_ask;
                self.next_ask = id + 1;
                let frame = Json::object().with("t", Json::text("question")).with(
                    "id",
                    Json::Uint(id),
                ).with("questionId", Json::text(qid.as_str())).with(
                    "header",
                    Json::text(header.as_str()),
                ).with("prompt", Json::text(prompt.as_str())).with("options", options.clone()).with(
                    "multi",
                    Json::Bool(*multi),
                );
                self.questions.push(Parked { id, frame: frame.clone(), at: now });
                assert(self@.questions =~= before.questions.push(
                    ParkedV { id, frame: frame@, at: now },
                ));
                assert(self@ =~= event_effect(before, event@, now, closed@).0);
                (Some(id), Some(frame))
            },
            EngineEvent::EgressAsk { host } => {
                let id: u64 = self.next_ask;
                self.next_ask = id + 1;
                let frame = Json::object().with("t", Json::text("egress")).with(
                    "id",
                    Json::Uint(id),
                ).with("host", Json::text(host.as_str()));
                self.egress.push(Parked { id, frame: frame.clone(), at: now });
                assert(self@.egress =~= before.egress.push(ParkedV { id, frame: frame@, at: now }));
                assert(self@ =~= event_effect(before, event@, now, closed@).0);
                (Some(id), Some(frame))
            },
            EngineEvent::TurnDone { outcome, usage, mispredictions } => {
                prune(&mut self.asks, closed);
                prune(&mut self.egress, closed);
                let mut done = Json::object().with("t", Json::text("turn_done")).with(
                    "schemaVersion",
                    Json::Uint(UPDATE_SCHEMA_VERSION),
                ).with("outcome", outcome.clone()).with("usage", usage.clone());
                if *mispredictions > 0 {
                    done = done.with("mispredictions", Json::Uint(*mispredictions));
                }
                assert(self@ =~= event_effect(before, event@, now, closed@).0);
                (None, Some(done))
            },
            EngineEvent::Update(u) => match u {
                Some(update) => {
                    let frame = Json::object().with("t", Json::text("update")).with(
                        "update",
                        update.clone(),
                    );
                    (None, Some(frame))
                },
                None => (None, None),
            },
        }
    }

    /// Drops the asks that can no longer be answered, and lists the frames for
    /// a client that attaches.
    pub fn resend_pending(&mut self, closed: &[u64]) -> (r: Vec<Json>)
        requires
            old(self)@.wf(),
        ensures
            final(self)@.wf(),
            final(self)@ == pruned(old(self)@, closed@),
            crate::json::views(r@) == attach_frames(pruned(old(self)@, closed@)),
    {
        proof {
            pruning_keeps_wf(self@, closed@);
        }
        let ghost before = self@;
        prune(&mut self.asks, closed);
        prune(&mut self.questions, closed);
        prune(&mut self.egress, closed);
        assert(self@ =~= pruned(before, closed@));
        let mut out: Vec<Json> = Vec::new();
        out.push(
            Json::object().with("t", Json::text("hello")).with(
                "sessionId",
                Json::text(self.session_id.as_str()),
            ),
        );
        assert(crate::json::views(out@) =~= seq![hello_frame(self@.session_id)]);
        push_frames(&mut out, self.asks.as_slice());
        push_frames(&mut out, self.questions.as_slice());
        push_frames(&mut out, self.egress.as_slice());
        out
    }

    /// Decides on a connection: `peer_ok` is the platform's check of the peer,
    /// `line` its first line, where one came in time. One that does not
    /// authenticate changes nothing; one that does takes over.
    pub fn authenticate(&mut self, peer_ok: bool, line: Option<&str>, closed: &[u64]) -> (r: Admission)
        requires
            old(self)@.wf(),
        ensures
            final(self)@.wf(),
            match r {
                Admission::Refused(reply) => {
                    &&& !admitted(old(self)@, peer_ok, opt_str(line))
                    &&& final(self)@ == old(self)@
                    &&& opt_text(reply) == (if peer_ok {
                        Some(unauthorized_line())
                    } else {
                        None
                    })
                },
                Admission::Attached { farewell, frames } => {
                    &&& admitted(old(self)@, peer_ok, opt_str(line))
                    &&& final(self)@ == (ServerV { attached: true, ..pruned(old(self)@, closed@) })
                    &&& match farewell {
                        Some(f) => old(self)@.attached && f@ == takeover_frame(),
                        None => !old(self)@.attached,
                    }
                    &&& crate::json::views(frames@) == attach_frames(pruned(old(self)@, closed@))
                },
            },
    {
        if !peer_ok {
            return Admission::Refused(None);
        }
        let ok = match line {
            Some(l) => auth_frame_ok(l, self.token.as_str()),
            None => false,
        };
        if !ok {
            return Admission::Refused(
                Some("{\"t\":\"error\",\"message\":\"unauthorized\"}\n".to_owned()),
            );
        }
        let farewell = if self.attached {
            Some(
                Json::object().with("t", Json::text("detached")).with(
                    "reason",
                    Json::text("another client attached"),
                ),
            )
        } else {
            None
        };
        let frames = self.resend_pending(closed);
        let ghost mid = self@;
        self.attached = true;
        assert(self@ =~= (ServerV { attached: true, ..mid }));
        Admission::Attached { farewell, frames }
    }

    /// The client is gone: it hung up, or a write to it failed.
    pub fn detach(&mut self)
        requires
            old(self)@.wf(),
        ensures
            final(self)@.wf(),
            final(self)@ == (ServerV { attached: false, ..old(self)@ }),
    {
        let ghost before = self@;
        self.attached = false;
        assert(self@ =~= (ServerV { attached: false, ..before }));
    }

    /// Denies every permission and egress ask that has waited for the deadline
    /// at the instant `now`. Questions authorize nothing and are never swept.
    pub fn sweep_expired_asks(&mut self, now: u128) -> (r: Swept)
        requires
            old(self)@.wf(),
        ensures
            final(self)@.wf(),
            final(self)@ == swept(old(self)@, now),
            ({
                let s = old(self)@;
                let gone = is_expired(now, s.ask_expiry);
                let n = r.asks@.len() + r.egress@.len();
                &&& r.asks@ == (if s.ask_expiry == 0 {
                    Seq::empty()
                } else {
                    ids_where(s.asks, gone)
                })
                &&& r.egress@ == (if s.ask_expiry == 0 {
                    Seq::empty()
                } else {
                    ids_where(s.egress, gone)
                })
                &&& r.message@ == expiry_message(s.ask_expiry)
                &&& match r.notice {
                    Some(f) => n > 0 && f@ == expiry_notice(n, s.ask_expiry),
                    None => n == 0,
                }
            }),
    {
        proof {
            sweep_keeps_wf(self@, now);
        }
        let ghost before = self@;
        let secs = decimal_wide(self.ask_expiry / 1_000_000_000);
        let mut message = "expired after ".to_owned();
        message.append(secs.as_str());
        message.append(" s with no human");
        if self.ask_expiry == 0 {
            return Swept { asks: Vec::new(), egress: Vec::new(), message, notice: None };
        }
        let asks = take_expired(&mut self.asks, now, self.ask_expiry);
        let egress = take_expired(&mut self.egress, now, self.ask_expiry);
        assert(self@ =~= swept(before, now));
        let n: u128 = asks.len() as u128 + egress.len() as u128;
        let notice = if n > 0 {
            let mut m = decimal_wide(n);
            m.append(" parked ask(s) expired after ");
            m.append(secs.as_str());
            m.append(" s with no human and were denied");
            Some(error_json(m.as_str()))
        } else {
            None
        };
        Swept { asks, egress, message, notice }
    }
}

proof fn not_held_stays(v: Seq<ParkedV>, id: u64)
    requires
        !holds_id(v, id),
    ensures
        without(v, is_id(id)) == v,
{
    let gone = is_id(id);
    assert forall|k: int| 0 <= k < v.len() implies !gone(#[trigger] v[k]) by {}
    without_none(v, gone);
}

/// The line of a frame: its JSON text and a line feed, and no other line feed.
pub fn frame_line(frame: &Json) -> (r: String)
    ensures
        r@ == json_line(frame@).push('\n'),
        forall|i: int| 0 <= i < r@.len() - 1 ==> #[trigger] r@[i] != '\n',
        flat(frame@) ==> (json_text(r@.drop_last()) matches Some(back) && same_fields(
            back,
            frame@,
        )),
{
    let mut s = render_json(frame);
    proof {
        let t = s@;
        assert forall|i: int| 0 <= i < t.len() implies #[trigger] t[i] != '\n' by {
            assert(t.contains(t[i]));
        }
    }
    let ghost t = s@;
    s.push('\n');
    assert(s@.drop_last() =~= t);
    s
}

/// The line that authenticates a client with the content of the secret's
/// file. The session reads it as presenting that secret, without the white
/// space around it.
pub fn auth_line(token: &str) -> (r: String)
    ensures
        r@ == json_line(
            no_members().put("t"@, JsonV::Str("auth"@)).put("token"@, JsonV::Str(trimmed(token@))),
        ).push('\n'),
        json_text(r@.drop_last()) matches Some(msg) && presents(msg, trimmed(token@)),
{
    let frame = Json::object().with("t", Json::text("auth")).with("token", Json::text(trim(token)));
    proof {
        reveal_strlit("t");
        reveal_strlit("token");
        assert("t"@.len() != "token"@.len());
        let m0 = Seq::<(Seq<char>, JsonV)>::empty();
        let m1 = m0.push(("t"@, JsonV::Str("auth"@)));
        put_is_found(m0, "t"@, JsonV::Str("auth"@), "token"@);
        put_is_found(m1, "token"@, JsonV::Str(trimmed(token@)), "t"@);
        assert(frame@->Obj_0 =~= m1.push(("token"@, JsonV::Str(trimmed(token@)))));
        assert(flat(frame@));
        assert(field(frame@, "t"@) == Some(JsonV::Str("auth"@)));
        assert(field(frame@, "token"@) == Some(JsonV::Str(trimmed(token@))));
    }
    frame_line(&frame)
}

/// What a client frame does depends on its members alone, not on their order.
pub proof fn frames_are_read_by_member(s: ServerV, a: JsonV, b: JsonV)
    requires
        same_fields(a, b),
    ensures
        frame_effect(s, a) == frame_effect(s, b),
{
    assert(field(a, "t"@) == field(b, "t"@));
    assert(field(a, "id"@) == field(b, "id"@));
    assert(field(a, "text"@) == field(b, "text"@));
    assert(field(a, "images"@) == field(b, "images"@));
    assert(field(a, "allow"@) == field(b, "allow"@));
    assert(field(a, "message"@) == field(b, "message"@));
    assert(field(a, "option"@) == field(b, "option"@));
}

/// An answer grants something only where it says `allow: true` of an ask that
/// is parked; anything malformed denies or does nothing.
pub proof fn only_a_plain_allow_grants(s: ServerV, msg: JsonV)
    ensures
        frame_effect(s, msg).1 matches EffectV::AnswerAsk(id, reply) ==> {
            &&& holds_id(s.asks, id)
            &&& uint_at(msg, "id"@) == Some(id)
            &&& reply !is Deny ==> reply == AskReplyV::Allow && bool_at(msg, "allow"@) == Some(true)
        },
        frame_effect(s, msg).1 matches EffectV::AnswerEgress(id, d) ==> {
            &&& holds_id(s.egress, id)
            &&& uint_at(msg, "id"@) == Some(id)
            &&& d == EgressDecision::Allow ==> bool_at(msg, "allow"@) == Some(true)
        },
{
}

/// An ask is answered at most once: afterwards its id is parked nowhere, so
/// the same answer again does nothing.
pub proof fn asks_are_answered_once(s: ServerV, msg: JsonV)
    requires
        s.wf(),
    ensures
        ({
            let (t, effect) = frame_effect(s, msg);
            effect is AnswerAsk || effect is AnswerQuestion || effect is AnswerEgress
                ==> frame_effect(t, msg) == (t, EffectV::Nothing)
        }),
{
    match uint_at(msg, "id"@) {
        Some(id) => {
            without_is_sub(s.asks, is_id(id));
            without_is_sub(s.questions, is_id(id));
            without_is_sub(s.egress, is_id(id));
        },
        None => {},
    }
}

/// A parked ask stays until it is answered: no frame that does not name its id
/// takes it away.
pub proof fn asks_stay_until_answered(s: ServerV, msg: JsonV, i: int)
    requires
        0 <= i < s.asks.len(),
        uint_at(msg, "id"@) != Some(s.asks[i].id),
    ensures
        frame_effect(s, msg).0.asks.contains(s.asks[i]),
{
    match uint_at(msg, "id"@) {
        Some(id) => {
            without_is_sub(s.asks, is_id(id));
        },
        None => {},
    }
    assert(s.asks.contains(s.asks[i]));
}

/// A client that attaches is sent every ask, question and egress ask that can
/// still be answered.
pub proof fn attaching_reissues_every_parked_ask(s: ServerV, closed: Seq<u64>, p: ParkedV)
    requires
        s.asks.contains(p) || s.questions.contains(p) || s.egress.contains(p),
        !closed.contains(p.id),
    ensures
        attach_frames(pruned(s, closed)).contains(p.frame),
        attach_frames(pruned(s, closed))[0] == hello_frame(s.session_id),
{
    let gone = is_closed(closed);
    let t = pruned(s, closed);
    without_is_sub(s.asks, gone);
    without_is_sub(s.questions, gone);
    without_is_sub(s.egress, gone);
    let all = attach_frames(t);
    let a = t.asks.len() as int;
    let q = t.questions.len() as int;
    if s.asks.contains(p) {
        let i = choose|i: int| 0 <= i < s.asks.len() && s.asks[i] == p;
        assert(t.asks.contains(s.asks[i]));
        let k = choose|k: int| 0 <= k < t.asks.len() && t.asks[k] == p;
        assert(all[1 + k] == p.frame);
    } else if s.questions.contains(p) {
        let i = choose|i: int| 0 <= i < s.questions.len() && s.questions[i] == p;
        assert(t.questions.contains(s.questions[i]));
        let k = choose|k: int| 0 <= k < t.questions.len() && t.questions[k] == p;
        assert(all[1 + a + k] == p.frame);
    } else {
        let i = choose|i: int| 0 <= i < s.egress.len() && s.egress[i] == p;
        assert(t.egress.contains(s.egress[i]));
        let k = choose|k: int| 0 <= k < t.egress.len() && t.egress[k] == p;
        assert(all[1 + a + q + k] == p.frame);
    }
}

/// A sweep takes exactly the asks that have waited for the deadline, and no
/// question.
pub proof fn sweeping_takes_exactly_the_expired(s: ServerV, now: u128, i: int)
    requires
        s.ask_expiry > 0,
        0 <= i < s.asks.len(),
    ensures
        swept(s, now).questions == s.questions,
        crate::keysource::age(now, s.asks[i].at) < s.ask_expiry <==> swept(s, now).asks.contains(
            s.asks[i],
        ),
{
    let gone = is_expired(now, s.ask_expiry);
    without_is_sub(s.asks, gone);
    let w = without(s.asks, gone);
    if w.contains(s.asks[i]) {
        let k = choose|k: int| 0 <= k < w.len() && w[k] == s.asks[i];
        assert(!gone(w[k]));
    }
}

proof fn frame_names_differ()
    ensures
        "t"@ != "update"@,
        "t"@ != "id"@,
        "t"@ != "summary"@,
        "t"@ != "protectedWhy"@,
        "id"@ != "summary"@,
        "id"@ != "protectedWhy"@,
        "summary"@ != "protectedWhy"@,
        "t"@ != "questionId"@,
        "t"@ != "header"@,
        "t"@ != "prompt"@,
        "t"@ != "options"@,
        "t"@ != "multi"@,
        "id"@ != "questionId"@,
        "id"@ != "header"@,
        "id"@ != "prompt"@,
        "id"@ != "options"@,
        "id"@ != "multi"@,
        "questionId"@ != "header"@,
        "questionId"@ != "prompt"@,
        "questionId"@ != "options"@,
        "questionId"@ != "multi"@,
        "header"@ != "prompt"@,
        "header"@ != "options"@,
        "header"@ != "multi"@,
        "prompt"@ != "options"@,
        "prompt"@ != "multi"@,
        "options"@ != "multi"@,
        "t"@ != "host"@,
        "id"@ != "host"@,
        "t"@ != "schemaVersion"@,
        "t"@ != "outcome"@,
        "t"@ != "usage"@,
        "t"@ != "mispredictions"@,
        "schemaVersion"@ != "outcome"@,
        "schemaVersion"@ != "usage"@,
        "schemaVersion"@ != "mispredictions"@,
        "outcome"@ != "usage"@,
        "outcome"@ != "mispredictions"@,
        "usage"@ != "mispredictions"@,
        "t"@ != "message"@,
        "t"@ != "reason"@,
        "t"@ != "sessionId"@,
{
    reveal_strlit("t");
    reveal_strlit("update");
    reveal_strlit("id");
    reveal_strlit("summary");
    reveal_strlit("protectedWhy");
    reveal_strlit("questionId");
    reveal_strlit("header");
    reveal_strlit("prompt");
    reveal_strlit("options");
    reveal_strlit("multi");
    reveal_strlit("host");
    reveal_strlit("schemaVersion");
    reveal_strlit("outcome");
    reveal_strlit("usage");
    reveal_strlit("mispredictions");
    reveal_strlit("message");
    reveal_strlit("reason");
    reveal_strlit("sessionId");
    assert("t"@.len() != "update"@.len());
    assert("t"@.len() != "id"@.len());
    assert("t"@.len() != "summary"@.len());
    assert("t"@.len() != "protectedWhy"@.len());
    assert("id"@.len() != "summary"@.len());
    assert("id"@.len() != "protectedWhy"@.len());
    assert("summary"@.len() != "protectedWhy"@.len());
    assert("t"@.len() != "questionId"@.len());
    assert("t"@.len() != "header"@.len());
    assert("t"@.len() != "prompt"@.len());
    assert("t"@.len() != "options"@.len());
    assert("t"@.len() != "multi"@.len());
    assert("id"@.len() != "questionId"@.len());
    assert("id"@.len() != "header"@.len());
    assert("id"@.len() != "prompt"@.len());
    assert("id"@.len() != "options"@.len());
    assert("id"@.len() != "multi"@.len());
    assert("questionId"@.len() != "header"@.len());
    assert("questionId"@.len() != "prompt"@.len());
    assert("questionId"@.len() != "options"@.len());
    assert("questionId"@.len() != "multi"@.len());
    assert("header"@[0] != "prompt"@[0]);
    assert("header"@.len() != "options"@.len());
    assert("header"@.len() != "multi"@.len());
    assert("prompt"@.len() != "options"@.len());
    assert("prompt"@.len() != "multi"@.len());
    assert("options"@.len() != "multi"@.len());
    assert("t"@.len() != "host"@.len());
    assert("id"@.len() != "host"@.len());
    assert("t"@.len() != "schemaVersion"@.len());
    assert("t"@.len() != "outcome"@.len());
    assert("t"@.len() != "usage"@.len());
    assert("t"@.len() != "mispredictions"@.len());
    assert("schemaVersion"@.len() != "outcome"@.len());
    assert("schemaVersion"@.len() != "usage"@.len());
    assert("schemaVersion"@.len() != "mispredictions"@.len());
    assert("outcome"@.len() != "usage"@.len());
    assert("outcome"@.len() != "mispredictions"@.len());
    assert("usage"@.len() != "mispredictions"@.len());
    assert("t"@.len() != "message"@.len());
    assert("t"@.len() != "reason"@.len());
    assert("t"@.len() != "sessionId"@.len());
}

proof fn frame_kinds_differ()
    ensures
        "prompt"@ != "steer"@,
        "prompt"@ != "continue"@,
        "prompt"@ != "cancel"@,
        "prompt"@ != "ask_reply"@,
        "prompt"@ != "question_reply"@,
        "prompt"@ != "egress_reply"@,
        "prompt"@ != "detach"@,
        "prompt"@ != "shutdown"@,
        "steer"@ != "continue"@,
        "steer"@ != "cancel"@,
        "steer"@ != "ask_reply"@,
        "steer"@ != "question_reply"@,
        "steer"@ != "egress_reply"@,
        "steer"@ != "detach"@,
        "steer"@ != "shutdown"@,
        "continue"@ != "cancel"@,
        "continue"@ != "ask_reply"@,
        "continue"@ != "question_reply"@,
        "continue"@ != "egress_reply"@,
        "continue"@ != "detach"@,
        "continue"@ != "shutdown"@,
        "cancel"@ != "ask_reply"@,
        "cancel"@ != "question_reply"@,
        "cancel"@ != "egress_reply"@,
        "cancel"@ != "detach"@,
        "cancel"@ != "shutdown"@,
        "ask_reply"@ != "question_reply"@,
        "ask_reply"@ != "egress_reply"@,
        "ask_reply"@ != "detach"@,
        "ask_reply"@ != "shutdown"@,
        "question_reply"@ != "egress_reply"@,
        "question_reply"@ != "detach"@,
        "question_reply"@ != "shutdown"@,
        "egress_reply"@ != "detach"@,
        "egress_reply"@ != "shutdown"@,
        "detach"@ != "shutdown"@,
{
    reveal_strlit("prompt");
    reveal_strlit("steer");
    reveal_strlit("continue");
    reveal_strlit("cancel");
    reveal_strlit("ask_reply");
    reveal_strlit("question_reply");
    reveal_strlit("egress_reply");
    reveal_strlit("detach");
    reveal_strlit("shutdown");
    assert("prompt"@.len() != "steer"@.len());
    assert("prompt"@.len() != "continue"@.len());
    assert("prompt"@[0] != "cancel"@[0]);
    assert("prompt"@.len() != "ask_reply"@.len());
    assert("prompt"@.len() != "question_reply"@.len());
    assert("prompt"@.len() != "egress_reply"@.len());
    assert("prompt"@[0] != "detach"@[0]);
    assert("prompt"@.len() != "shutdown"@.len());
    assert("steer"@.len() != "continue"@.len());
    assert("steer"@.len() != "cancel"@.len());
    assert("steer"@.len() != "ask_reply"@.len());
    assert("steer"@.len() != "question_reply"@.len());
    assert("steer"@.len() != "egress_reply"@.len());
    assert("steer"@.len() != "detach"@.len());
    assert("steer"@.len() != "shutdown"@.len());
    assert("continue"@.len() != "cancel"@.len());
    assert("continue"@.len() != "ask_reply"@.len());
    assert("continue"@.len() != "question_reply"@.len());
    assert("continue"@.len() != "egress_reply"@.len());
    assert("continue"@.len() != "detach"@.len());
    assert("continue"@[0] != "shutdown"@[0]);
    assert("cancel"@.len() != "ask_reply"@.len());
    assert("cancel"@.len() != "question_reply"@.len());
    assert("cancel"@.len() != "egress_reply"@.len());
    assert("cancel"@[0] != "detach"@[0]);
    assert("cancel"@.len() != "shutdown"@.len());
    assert("ask_reply"@.len() != "question_reply"@.len());
    assert("ask_reply"@.len() != "egress_reply"@.len());
    assert("ask_reply"@.len() != "detach"@.len());
    assert("ask_reply"@.len() != "shutdown"@.len());
    assert("question_reply"@.len() != "egress_reply"@.len());
    assert("question_reply"@.len() != "detach"@.len());
    assert("question_reply"@.len() != "shutdown"@.len());
    assert("egress_reply"@.len() != "detach"@.len());
    assert("egress_reply"@.len() != "shutdown"@.len());
    assert("detach"@.len() != "shutdown"@.len());
}

/// What is left of the parked asks is what is not gone, in order; what is gone is
/// listed by id, in order.
proof fn without_filters(v: Seq<ParkedV>, gone: spec_fn(ParkedV) -> bool, keep: spec_fn(ParkedV) -> bool)
    requires
        forall|p: ParkedV| #[trigger] keep(p) == !gone(p),
    ensures
        without(v, gone) == v.filter(keep),
        ids_where(v, gone) == v.filter(gone).map_values(|p: ParkedV| p.id),
    decreases v.len(),
{
    reveal(Seq::filter);
    let id = |p: ParkedV| p.id;
    if v.len() > 0 {
        let t = v.drop_last();
        without_filters(t, gone, keep);
        if gone(v.last()) {
            assert(t.filter(gone).push(v.last()).map_values(id) =~= t.filter(gone).map_values(
                id,
            ).push(v.last().id));
        }
    } else {
        assert(v.filter(gone).map_values(id) =~= Seq::<u64>::empty());
    }
}

/// Every update of the engine becomes a frame that carries it, and changes
/// nothing; an event that has none sends nothing.
pub proof fn updates_are_passed_on(s: ServerV, update: JsonV, now: u128, closed: Seq<u64>)
    ensures
        ({
            let (next, id, frame) = event_effect(
                s,
                EngineEventV::Update(Some(update)),
                now,
                closed,
            );
            &&& next == s
            &&& id is None
            &&& frame matches Some(f) && f is Obj && text_at(f, "t"@) == Some("update"@) && field(
                f,
                "update"@,
            ) == Some(update)
        }),
        event_effect(s, EngineEventV::Update(None), now, closed) == (
            s,
            None::<u64>,
            None::<JsonV>,
        ),
{
    broadcast use {put_reads, nothing_reads};

    frame_names_differ();
}

/// What the engine asks of a human becomes a frame in the engine's own words,
/// under an id that nothing parked has; the same frame is parked under that id
/// from the instant on, behind what waits already, and nothing else changes.
pub proof fn asks_are_announced_and_parked(
    s: ServerV,
    e: EngineEventV,
    now: u128,
    closed: Seq<u64>,
)
    requires
        s.wf(),
        s.next_ask < u64::MAX,
        e is Ask || e is Question || e is EgressAsk,
    ensures
        ({
            let (next, new, frame) = event_effect(s, e, now, closed);
            &&& new matches Some(id) && !holds_id(s.asks, id) && !holds_id(s.questions, id)
                && !holds_id(s.egress, id) && next.next_ask > id && (frame matches Some(f) && uint_at(
                f,
                "id"@,
            ) == Some(id) && (match e {
                EngineEventV::Ask(summary, why) => {
                    &&& text_at(f, "t"@) == Some("ask"@)
                    &&& text_at(f, "summary"@) == Some(summary)
                    &&& text_at(f, "protectedWhy"@) == why
                    &&& next == (ServerV {
                        asks: s.asks + seq![ParkedV { id, frame: f, at: now }],
                        next_ask: next.next_ask,
                        ..s
                    })
                },
                EngineEventV::Question { id: name, header, prompt, options, multi } => {
                    &&& text_at(f, "t"@) == Some("question"@)
                    &&& text_at(f, "questionId"@) == Some(name)
                    &&& text_at(f, "header"@) == Some(header)
                    &&& text_at(f, "prompt"@) == Some(prompt)
                    &&& field(f, "options"@) == Some(options)
                    &&& bool_at(f, "multi"@) == Some(multi)
                    &&& next == (ServerV {
                        questions: s.questions + seq![ParkedV { id, frame: f, at: now }],
                        next_ask: next.next_ask,
                        ..s
                    })
                },
                EngineEventV::EgressAsk(host) => {
                    &&& text_at(f, "t"@) == Some("egress"@)
                    &&& text_at(f, "host"@) == Some(host)
                    &&& next == (ServerV {
                        egress: s.egress + seq![ParkedV { id, frame: f, at: now }],
                        next_ask: next.next_ask,
                        ..s
                    })
                },
                _ => false,
            }))
        }),
{
    broadcast use {put_reads, nothing_reads};

    frame_names_differ();
    let f = event_effect(s, e, now, closed).2->0;
    let p = ParkedV { id: s.next_ask, frame: f, at: now };
    assert(s.asks.push(p) =~= s.asks + seq![p]);
    assert(s.questions.push(p) =~= s.questions + seq![p]);
    assert(s.egress.push(p) =~= s.egress + seq![p]);
}

/// The end of a turn is told with its outcome and its usage, and with its
/// mispredictions where there were any; the permission and egress asks that
/// nobody can be answered for any more are dropped, and nothing else.
pub proof fn turn_ends_are_told(
    s: ServerV,
    outcome: JsonV,
    usage: JsonV,
    mispredictions: u64,
    now: u128,
    closed: Seq<u64>,
)
    ensures
        ({
            let (next, id, frame) = event_effect(
                s,
                EngineEventV::TurnDone { outcome, usage, mispredictions },
                now,
                closed,
            );
            &&& id is None
            &&& frame matches Some(f) && text_at(f, "t"@) == Some("turn_done"@) && field(
                f,
                "outcome"@,
            ) == Some(outcome) && field(f, "usage"@) == Some(usage) && uint_at(
                f,
                "mispredictions"@,
            ) == (if mispredictions == 0 {
                None::<u64>
            } else {
                Some(mispredictions)
            })
            &&& next == (ServerV {
                asks: s.asks.filter(|p: ParkedV| !closed.contains(p.id)),
                egress: s.egress.filter(|p: ParkedV| !closed.contains(p.id)),
                ..s
            })
        }),
{
    broadcast use {put_reads, nothing_reads};

    frame_names_differ();
    let keep = |p: ParkedV| !closed.contains(p.id);
    without_filters(s.asks, is_closed(closed), keep);
    without_filters(s.egress, is_closed(closed), keep);
}

/// A client's frame does what its kind says: a prompt and a correction carry the
/// client's text, the others carry nothing; only a client that leaves changes
/// the session's state.
pub proof fn frames_do_what_they_say(s: ServerV, msg: JsonV, text: Seq<char>, images: Seq<(Seq<char>, Seq<char>)>)
    requires
        text_at(msg, "text"@) == Some(text),
        images_of(msg) == Ok::<Seq<(Seq<char>, Seq<char>)>, Seq<char>>(images),
    ensures
        text_at(msg, "t"@) == Some("prompt"@) ==> frame_effect(s, msg) == (
            s,
            EffectV::Prompt(text, images),
        ),
        text_at(msg, "t"@) == Some("steer"@) ==> frame_effect(s, msg) == (
            s,
            EffectV::Steer(text, images),
        ),
        text_at(msg, "t"@) == Some("continue"@) ==> frame_effect(s, msg) == (s, EffectV::Continue),
        text_at(msg, "t"@) == Some("cancel"@) ==> frame_effect(s, msg) == (s, EffectV::Interrupt),
        text_at(msg, "t"@) == Some("detach"@) ==> frame_effect(s, msg) == (
            ServerV { attached: false, ..s },
            EffectV::Detach,
        ),
        text_at(msg, "t"@) == Some("shutdown"@) ==> frame_effect(s, msg) == (s, EffectV::Shutdown),
{
    frame_kinds_differ();
}

/// A prompt or a correction whose images are refused reaches the session in no
/// part, and the client is told why.
pub proof fn refused_images_are_told(s: ServerV, msg: JsonV, why: Seq<char>)
    requires
        text_at(msg, "t"@) == Some("prompt"@) || text_at(msg, "t"@) == Some("steer"@),
        images_of(msg) == Err::<Seq<(Seq<char>, Seq<char>)>, Seq<char>>(why),
    ensures
        frame_effect(s, msg).0 == s,
        frame_effect(s, msg).1 matches EffectV::Refuse(f) && text_at(f, "t"@) == Some("error"@)
            && text_at(f, "message"@) == Some(text_at(msg, "t"@)->0 + ": "@ + why),
{
    broadcast use {put_reads, nothing_reads};

    frame_names_differ();
    frame_kinds_differ();
    reveal_strlit("prompt: ");
    reveal_strlit("prompt");
    reveal_strlit("steer: ");
    reveal_strlit("steer");
    reveal_strlit(": ");
    assert("prompt: "@ =~= "prompt"@ + ": "@);
    assert("steer: "@ =~= "steer"@ + ": "@);
}

/// An answer reaches the parked ask that it names, of its own kind alone: that
/// one is taken away and all others stay as they were. Permission is granted
/// exactly where the answer says `allow: true`; else it is denied with the
/// client's message.
pub proof fn answers_reach_the_ask_they_name(s: ServerV, msg: JsonV, id: u64)
    requires
        s.wf(),
        uint_at(msg, "id"@) == Some(id),
    ensures
        ({
            let (next, effect) = frame_effect(s, msg);
            let other = |p: ParkedV| p.id != id;
            &&& text_at(msg, "t"@) == Some("ask_reply"@) ==> {
                &&& next == (ServerV { asks: s.asks.filter(other), ..s })
                &&& holds_id(s.asks, id) ==> (effect matches EffectV::AnswerAsk(to, reply) && to
                    == id && (if bool_at(msg, "allow"@) == Some(true) {
                    reply == AskReplyV::Allow
                } else {
                    reply == AskReplyV::Deny(text_at(msg, "message"@))
                }))
                &&& !holds_id(s.asks, id) ==> effect == EffectV::Nothing
            }
            &&& text_at(msg, "t"@) == Some("question_reply"@) ==> {
                &&& next == (ServerV { questions: s.questions.filter(other), ..s })
                &&& holds_id(s.questions, id) ==> (effect matches EffectV::AnswerQuestion(to, a)
                    && to == id && (match a {
                    QuestionAnswerV::Selected(v) => v.len() == 1 && text_at(msg, "option"@) == Some(
                        v[0],
                    ),
                    QuestionAnswerV::FreeText(t) => text_at(msg, "option"@) is None && text_at(
                        msg,
                        "text"@,
                    ) == Some(t),
                    QuestionAnswerV::NoHuman => text_at(msg, "option"@) is None && text_at(
                        msg,
                        "text"@,
                    ) is None,
                }))
                &&& !holds_id(s.questions, id) ==> effect == EffectV::Nothing
            }
            &&& text_at(msg, "t"@) == Some("egress_reply"@) ==> {
                &&& next == (ServerV { egress: s.egress.filter(other), ..s })
                &&& holds_id(s.egress, id) ==> (effect matches EffectV::AnswerEgress(to, d) && to
                    == id && (if bool_at(msg, "allow"@) == Some(true) {
                    d == EgressDecision::Allow
                } else {
                    d == EgressDecision::Deny
                }))
                &&& !holds_id(s.egress, id) ==> effect == EffectV::Nothing
            }
        }),
{
    frame_kinds_differ();
    let other = |p: ParkedV| p.id != id;
    without_filters(s.asks, is_id(id), other);
    without_filters(s.questions, is_id(id), other);
    without_filters(s.egress, is_id(id), other);
    if !holds_id(s.asks, id) {
        not_held_stays(s.asks, id);
    }
    if !holds_id(s.questions, id) {
        not_held_stays(s.questions, id);
    }
    if !holds_id(s.egress, id) {
        not_held_stays(s.egress, id);
    }
}

/// A connection is let in exactly where its peer is and its first line is a frame
/// that carries the session's secret.
pub proof fn only_the_secret_lets_in(s: ServerV, peer_ok: bool, line: Option<Seq<char>>)
    ensures
        admitted(s, peer_ok, line) <==> peer_ok && line is Some && (json_text(line->0) matches Some(
            msg,
        ) && text_at(msg, "t"@) == Some("auth"@) && text_at(msg, "token"@) == Some(s.token)),
{
}

/// A client that attaches is greeted with the session's id, and next sent what
/// is parked and not closed, and nothing else: permission asks, questions and
/// egress asks, each in the order in which they came.
pub proof fn attaching_sends_what_waits(s: ServerV, closed: Seq<u64>)
    ensures
        ({
            let open = |p: ParkedV| !closed.contains(p.id);
            let frame = |p: ParkedV| p.frame;
            let all = attach_frames(pruned(s, closed));
            &&& all.len() > 0
            &&& text_at(all[0], "t"@) == Some("hello"@)
            &&& text_at(all[0], "sessionId"@) == Some(s.session_id)
            &&& all.skip(1) == (s.asks.filter(open) + s.questions.filter(open) + s.egress.filter(
                open,
            )).map_values(frame)
            &&& pruned(s, closed) == (ServerV {
                asks: s.asks.filter(open),
                questions: s.questions.filter(open),
                egress: s.egress.filter(open),
                ..s
            })
        }),
{
    broadcast use {put_reads, nothing_reads};

    frame_names_differ();
    let open = |p: ParkedV| !closed.contains(p.id);
    let frame = |p: ParkedV| p.frame;
    without_filters(s.asks, is_closed(closed), open);
    without_filters(s.questions, is_closed(closed), open);
    without_filters(s.egress, is_closed(closed), open);
    let all = attach_frames(pruned(s, closed));
    assert(all.skip(1) =~= (s.asks.filter(open) + s.questions.filter(open) + s.egress.filter(
        open,
    )).map_values(frame));
}

/// A sweep takes the permission and egress asks that have waited for the span,
/// names them by id in order, and leaves the others and every question; without
/// a span nothing expires.
pub proof fn sweeps_take_what_waited_too_long(s: ServerV, now: u128)
    ensures
        ({
            let late = |p: ParkedV| now >= p.at + s.ask_expiry;
            let fresh = |p: ParkedV| now < p.at + s.ask_expiry;
            &&& s.ask_expiry == 0 ==> swept(s, now) == s
            &&& s.ask_expiry > 0 ==> {
                &&& swept(s, now) == (ServerV {
                    asks: s.asks.filter(fresh),
                    egress: s.egress.filter(fresh),
                    ..s
                })
                &&& ids_where(s.asks, is_expired(now, s.ask_expiry)) == s.asks.filter(
                    late,
                ).map_values(|p: ParkedV| p.id)
                &&& ids_where(s.egress, is_expired(now, s.ask_expiry)) == s.egress.filter(
                    late,
                ).map_values(|p: ParkedV| p.id)
            }
        }),
{
    if s.ask_expiry > 0 {
        let late = |p: ParkedV| now >= p.at + s.ask_expiry;
        let fresh = |p: ParkedV| now < p.at + s.ask_expiry;
        let gone = is_expired(now, s.ask_expiry);
        assert(gone =~= late);
        without_filters(s.asks, gone, fresh);
        without_filters(s.egress, gone, fresh);
    }
}

/// The frame that a client is left with when another takes over, and the notice
/// of a sweep, say so: the one is a detachment, the other an error that gives
/// the number of asks and the seconds they waited.
pub proof fn notices_say_what_happened(n: nat, expiry: u128)
    ensures
        text_at(takeover_frame(), "t"@) == Some("detached"@),
        text_at(takeover_frame(), "reason"@) == Some("another client attached"@),
        text_at(expiry_notice(n, expiry), "t"@) == Some("error"@),
        text_at(expiry_notice(n, expiry), "message"@) matches Some(m) && decimal_of(
            n,
        ).is_prefix_of(m) && exists|k: int|
            0 <= k <= m.len() && #[trigger] decimal_of(expiry as nat / 1_000_000_000).is_prefix_of(
                m.skip(k),
            ) && k > decimal_of(n).len(),
{
    broadcast use {put_reads, nothing_reads};

    frame_names_differ();
    reveal_strlit(" parked ask(s) expired after ");
    let secs = decimal_of(expiry as nat / 1_000_000_000);
    let m = text_at(expiry_notice(n, expiry), "message"@)->0;
    let k = (decimal_of(n) + " parked ask(s) expired after "@).len() as int;
    assert(m.take(decimal_of(n).len() as int) =~= decimal_of(n));
    assert(m.skip(k).take(secs.len() as int) =~= secs);
    assert(secs.is_prefix_of(m.skip(k)));
}

/// What an allowed host's owner is told gives the host and the line that allows it for
/// good.
pub proof fn hints_give_the_line_to_paste(host: Seq<char>)
    ensures
        occurs(hint_text(host), "allow = [\""@ + host + "\"]"@),
        occurs(hint_text(host), host),
{
    reveal_strlit(
        "\" for this session\n  to make it permanent, add to your config.toml:\n      [network]\n      allow = [\"",
    );
    reveal_strlit("allow = [\"");
    let m = "\" for this session\n  to make it permanent, add to your config.toml:\n      [network]\n      allow = [\""@;
    let a = "allow = [\""@;
    let s = hint_text(host);
    let line = a + host + "\"]"@;
    let k = s.len() - line.len();
    assert(s.subrange(k, s.len() as int) =~= line);
    assert(occurs_at(s, line, k));
    let h = "  allowed \""@.len() as int;
    assert(s.subrange(h, h + host.len()) =~= host);
    assert(occurs_at(s, host, h));
}

/// An expired ask is answered with the whole seconds that it waited.
pub proof fn expiries_give_the_seconds(expiry: u128)
    ensures
        expiry_message(expiry) == "expired after "@ + decimal_of(
            (expiry / 1_000_000_000) as nat,
        ) + " s with no human"@,
{
}

/// The answer to a client that is turned away ends its line and says why.
pub proof fn strangers_are_told(i: int)
    requires
        0 <= i < unauthorized_line().len(),
    ensures
        unauthorized_line().last() == '\n',
        unauthorized_line()[i] == '\n' ==> i == unauthorized_line().len() - 1,
        occurs(unauthorized_line(), "unauthorized"@),
{
    reveal_strlit("{\"t\":\"error\",\"message\":\"unauthorized\"}\n");
    reveal_strlit("unauthorized");
    let s = unauthorized_line();
    let u = "unauthorized"@;
    assert(s.subrange(24, 36) =~= u);
    assert(occurs_at(s, u, 24));
}

/// A secret is written two hexadecimal digits to a byte, the high one first.
pub proof fn secrets_are_hexadecimal(b: Seq<u8>, i: int)
    requires
        0 <= i < b.len(),
    ensures
        hex_of(b).len() == 2 * b.len(),
        hex_of(b)[2 * i] == "0123456789abcdef"@[b[i] as int / 16],
        hex_of(b)[2 * i + 1] == "0123456789abcdef"@[b[i] as int % 16],
    decreases b.len(),
{
    let t = b.drop_last();
    secrets_keep_all_entropy(b, b);
    secrets_keep_all_entropy(t, t);
    if i < t.len() {
        secrets_are_hexadecimal(t, i);
    }
    digits_are_hexadecimal(b[i] as nat / 16);
    digits_are_hexadecimal(b[i] as nat % 16);
}

proof fn digits_are_hexadecimal(n: nat)
    requires
        n < 16,
    ensures
        hex_digit(n) == "0123456789abcdef"@[n as int],
{
    reveal_strlit("0123456789abcdef");
    let a = "0123456789abcdef"@;
    if n == 0 {
        assert(a[0] == '0');
    }
    if n == 1 {
        assert(a[1] == '1');
    }
    if n == 2 {
        assert(a[2] == '2');
    }
    if n == 3 {
        assert(a[3] == '3');
    }
    if n == 4 {
        assert(a[4] == '4');
    }
    if n == 5 {
        assert(a[5] == '5');
    }
    if n == 6 {
        assert(a[6] == '6');
    }
    if n == 7 {
        assert(a[7] == '7');
    }
    if n == 8 {
        assert(a[8] == '8');
    }
    if n == 9 {
        assert(a[9] == '9');
    }
    if n == 10 {
        assert(a[10] == 'a');
    }
    if n == 11 {
        assert(a[11] == 'b');
    }
    if n == 12 {
        assert(a[12] == 'c');
    }
    if n == 13 {
        assert(a[13] == 'd');
    }
    if n == 14 {
        assert(a[14] == 'e');
    }
    if n == 15 {
        assert(a[15] == 'f');
    }
}

} // verus!
