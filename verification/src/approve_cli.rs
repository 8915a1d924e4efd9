//! `hotl approve`: answering a parked ask or question from a second terminal,
//! without attaching.
use crate::json::{
    array_at, field, json_text, no_members, parse_json, text_at, uint_at, Json, JsonV,
};
use crate::session_server::text_or_empty;
use crate::text::{decimal, decimal_of, join, joined, parse_unsigned, parsed_unsigned, same, texts};
use vstd::prelude::*;
use vstd::string::*;

verus! {

/// How the command is used.
pub const USAGE: &'static str = "usage:\n  hotl approve <session>                       list what it is waiting on\n  hotl approve <session> --ask <id> allow|deny  answer a permission ask\n  hotl approve <session> --question <id> <option>\n                                               answer an ask_user question";

/// The id behind `flag`, or what is wrong with it.
pub open spec fn id_after(args: Seq<Seq<char>>, flag: Seq<char>) -> Result<u64, Seq<char>> {
    if args.len() < 2 {
        Err("`"@ + flag + "` needs the id from the listing"@)
    } else {
        match parsed_unsigned(args[1], u64::MAX as nat) {
            Some(n) => Ok(n as u64),
            None => Err("`"@ + flag + "` takes a number — the id from the listing"@),
        }
    }
}

/// The frame that the arguments after the session ask to send; nothing stands
/// for a listing. A verdict that is neither word is refused.
pub open spec fn answer_of(args: Seq<Seq<char>>) -> Result<Option<JsonV>, Seq<char>> {
    if args.len() == 0 {
        Ok(None)
    } else if args[0] == "--ask"@ {
        match id_after(args, "--ask"@) {
            Err(e) => Err(e),
            Ok(id) => if args.len() < 3 {
                Err("`--ask <id>` needs `allow` or `deny`"@)
            } else if args[2] == "allow"@ || args[2] == "deny"@ {
                Ok(Some(ask_answer(id, args[2] == "allow"@)))
            } else {
                Err("`"@ + args[2] + "` is not `allow` or `deny`"@)
            },
        }
    } else if args[0] == "--question"@ {
        match id_after(args, "--question"@) {
            Err(e) => Err(e),
            Ok(id) => if args.len() < 3 {
                Err("`--question <id>` needs the option label to choose"@)
            } else {
                Ok(
                    Some(
                        no_members().put("t"@, JsonV::Str("question_reply"@)).put(
                            "id"@,
                            JsonV::Uint(id),
                        ).put("option"@, JsonV::Str(args[2])),
                    ),
                )
            },
        }
    } else {
        Err("`"@ + args[0] + "` is not an option"@)
    }
}

/// The frame that answers an ask.
pub open spec fn ask_answer(id: u64, allow: bool) -> JsonV {
    no_members().put("t"@, JsonV::Str("ask_reply"@)).put("id"@, JsonV::Uint(id)).put(
        "allow"@,
        JsonV::Bool(allow),
    )
}

fn quoted(flag: &str, tail: &str) -> (r: String)
    ensures
        r@ == "`"@ + flag@ + tail@,
{
    let mut s = "`".to_owned();
    s.append(flag);
    s.append(tail);
    s
}

fn num(args: &[String], flag: &str) -> (r: Result<u64, String>)
    ensures
        match r {
            Ok(n) => id_after(texts(args@), flag@) == Ok::<u64, Seq<char>>(n),
            Err(e) => id_after(texts(args@), flag@) == Err::<u64, Seq<char>>(e@),
        },
{
    if args.len() < 2 {
        return Err(quoted(flag, "` needs the id from the listing"));
    }
    assert(texts(args@)[1] == args@[1]@);
    match parse_unsigned(args[1].as_str(), u64::MAX) {
        Some(n) => Ok(n),
        None => Err(quoted(flag, "` takes a number — the id from the listing")),
    }
}

/// The frame that the arguments after the session ask to send.
pub fn parse(args: &[String]) -> (r: Result<Option<Json>, String>)
    ensures
        match r {
            Ok(Some(j)) => answer_of(texts(args@)) == Ok::<Option<JsonV>, Seq<char>>(Some(j@)),
            Ok(None) => answer_of(texts(args@)) == Ok::<Option<JsonV>, Seq<char>>(None),
            Err(e) => answer_of(texts(args@)) == Err::<Option<JsonV>, Seq<char>>(e@),
        },
{
    let ghost all = texts(args@);
    if args.len() == 0 {
        return Ok(None);
    }
    let first = args[0].as_str();
    assert(all[0] == first@);
    assert(args@.len() > 2 ==> all[2] == args@[2]@);
    if same(first, "--ask") {
        let id: u64 = match num(args, "--ask") {
            Ok(n) => n,
            Err(e) => {
                return Err(e);
            },
        };
        if args.len() < 3 {
            return Err("`--ask <id>` needs `allow` or `deny`".to_owned());
        }
        let verdict = args[2].as_str();
        let allow = same(verdict, "allow");
        if !allow && !same(verdict, "deny") {
            return Err(quoted(verdict, "` is not `allow` or `deny`"));
        }
        Ok(
            Some(
                Json::object().with("t", Json::text("ask_reply")).with("id", Json::Uint(id)).with(
                    "allow",
                    Json::Bool(allow),
                ),
            ),
        )
    } else if same(first, "--question") {
        let id: u64 = match num(args, "--question") {
            Ok(n) => n,
            Err(e) => {
                return Err(e);
            },
        };
        if args.len() < 3 {
            return Err("`--question <id>` needs the option label to choose".to_owned());
        }
        Ok(
            Some(
                Json::object().with("t", Json::text("question_reply")).with(
                    "id",
                    Json::Uint(id),
                ).with("option", Json::text(args[2].as_str())),
            ),
        )
    } else {
        Err(quoted(first, "` is not an option"))
    }
}

/// Whether a frame is something that waits for an answer.
pub open spec fn waits(msg: JsonV) -> bool {
    match text_at(msg, "t"@) {
        Some(t) => t == "ask"@ || t == "question"@ || t == "egress"@,
        None => false,
    }
}

/// Whether a frame is something that waits for an answer.
pub fn is_waiting(msg: &Json) -> (r: bool)
    ensures
        r == waits(msg@),
{
    match msg.text_field("t") {
        Some(t) => same(t, "ask") || same(t, "question") || same(t, "egress"),
        None => false,
    }
}

/// The frame of a line, where it is something that waits for an answer.
pub fn parked_frame(line: &str) -> (r: Option<Json>)
    ensures
        match r {
            Some(j) => json_text(line@) == Some(j@) && waits(j@),
            None => json_text(line@) matches Some(msg) ==> !waits(msg),
        },
{
    match parse_json(line) {
        Some(msg) => {
            if is_waiting(&msg) {
                Some(msg)
            } else {
                None
            }
        },
        None => None,
    }
}

/// The labels of the first `n` options that have one.
pub open spec fn labels(options: Seq<JsonV>, n: nat) -> Seq<Seq<char>>
    decreases n,
{
    if n == 0 {
        Seq::empty()
    } else {
        match text_at(options[n - 1], "label"@) {
            Some(l) => labels(options, (n - 1) as nat).push(l),
            None => labels(options, (n - 1) as nat),
        }
    }
}

/// The labels of a question's options.
pub open spec fn option_labels(msg: JsonV) -> Seq<Seq<char>> {
    match array_at(msg, "options"@) {
        Some(a) => labels(a, a.len()),
        None => Seq::empty(),
    }
}

/// The id of a frame, or zero.
pub open spec fn id_or_zero(msg: JsonV) -> nat {
    match uint_at(msg, "id"@) {
        Some(n) => n as nat,
        None => 0,
    }
}

/// One waiting item, as the listing shows it.
pub open spec fn description(msg: JsonV) -> Seq<char> {
    let id = decimal_of(id_or_zero(msg));
    let t = text_at(msg, "t"@);
    if t == Some("ask"@) {
        "#"@ + id + " ask — "@ + text_or_empty(msg, "summary"@) + " (--ask "@ + id
            + " allow|deny)"@
    } else if t == Some("question"@) {
        "#"@ + id + " question — "@ + text_or_empty(msg, "header"@) + ": "@ + text_or_empty(
            msg,
            "prompt"@,
        ) + " (--question "@ + id + " <"@ + joined(option_labels(msg), "|"@) + ">)"@
    } else if t == Some("egress"@) {
        "#"@ + id + " egress — "@ + text_or_empty(msg, "host"@) + " (attach to answer)"@
    } else {
        "#"@ + id
    }
}

fn gather_labels(msg: &Json) -> (r: Vec<String>)
    ensures
        texts(r@) == option_labels(msg@),
{
    let mut out: Vec<String> = Vec::new();
    assert(texts(out@) =~= Seq::empty());
    let options = match msg.array_field("options") {
        Some(a) => a,
        None => {
            return out;
        },
    };
    let ghost all = crate::json::views(options@);
    let mut i: usize = 0;
    while i < options.len()
        invariant
            0 <= i <= options.len(),
            all == crate::json::views(options@),
            texts(out@) == labels(all, i as nat),
        decreases options.len() - i,
    {
        assert(all[i as int] == options@[i as int]@);
        if let Some(l) = options[i].text_field("label") {
            let ghost before = texts(out@);
            out.push(l.to_owned());
            assert(texts(out@) =~= before.push(l@));
        }
        i = i + 1;
    }
    out
}

fn says(msg: &Json, key: &str) -> (r: String)
    ensures
        r@ == text_or_empty(msg@, key@),
{
    crate::session_server::str_field(msg, key)
}

/// One waiting item, as the listing shows it.
pub fn describe(msg: &Json) -> (r: String)
    ensures
        r@ == description(msg@),
{
    let n: u64 = match msg.uint_field("id") {
        Some(n) => n,
        None => 0,
    };
    let id = decimal(n);
    let mut s = "#".to_owned();
    s.append(id.as_str());
    let t = match msg.text_field("t") {
        Some(t) => t,
        None => {
            return s;
        },
    };
    proof {
        reveal_strlit("ask");
        reveal_strlit("question");
        reveal_strlit("egress");
        assert("ask"@.len() == 3 && "question"@.len() == 8 && "egress"@.len() == 6);
    }
    if same(t, "ask") {
        s.append(" ask — ");
        s.append(says(msg, "summary").as_str());
        s.append(" (--ask ");
        s.append(id.as_str());
        s.append(" allow|deny)");
    } else if same(t, "question") {
        s.append(" question — ");
        s.append(says(msg, "header").as_str());
        s.append(": ");
        s.append(says(msg, "prompt").as_str());
        s.append(" (--question ");
        s.append(id.as_str());
        s.append(" <");
        s.append(join(gather_labels(msg).as_slice(), "|").as_str());
        s.append(">)");
    } else if same(t, "egress") {
        s.append(" egress — ");
        s.append(says(msg, "host").as_str());
        s.append(" (attach to answer)");
    }
    s
}

/// The indented descriptions of the first `n` waiting items, each on a line.
pub open spec fn described(parked: Seq<JsonV>, n: nat) -> Seq<char>
    decreases n,
{
    if n == 0 {
        Seq::empty()
    } else {
        described(parked, (n - 1) as nat) + "  "@ + description(parked[n - 1]) + "\n"@
    }
}

/// What is printed where nothing is to be answered.
pub fn listing(id: &str, parked: &[Json]) -> (r: String)
    ensures
        r@ == (if parked@.len() == 0 {
            id@ + " is not waiting on anything.\n"@
        } else {
            id@ + " is waiting on:\n"@ + described(crate::json::views(parked@), parked@.len())
        }),
{
    let mut s = id.to_owned();
    if parked.len() == 0 {
        s.append(" is not waiting on anything.\n");
        return s;
    }
    s.append(" is waiting on:\n");
    let ghost head = s@;
    let ghost all = crate::json::views(parked@);
    let mut i: usize = 0;
    assert(head + described(all, 0) =~= head);
    while i < parked.len()
        invariant
            0 <= i <= parked.len(),
            all == crate::json::views(parked@),
            s@ == head + described(all, i as nat),
        decreases parked.len() - i,
    {
        assert(all[i as int] == parked@[i as int]@);
        s.append("  ");
        s.append(describe(&parked[i]).as_str());
        s.append("\n");
        i = i + 1;
        assert(s@ =~= head + described(all, i as nat));
    }
    s
}

/// Whether one of the waiting items has the id.
pub open spec fn is_parked(parked: Seq<JsonV>, id: u64) -> bool {
    exists|i: int| 0 <= i < parked.len() && uint_at(#[trigger] parked[i], "id"@) == Some(id)
}

/// What becomes of an answer: it is sent where its id is still waiting, and
/// `Ok` says what is printed after it; else `Err` says what is printed instead.
pub fn settle(id: &str, reply_id: u64, parked: &[Json]) -> (r: Result<String, String>)
    ensures
        match r {
            Ok(s) => is_parked(crate::json::views(parked@), reply_id) && s@ == "answered "@ + id@
                + " #"@ + decimal_of(reply_id as nat),
            Err(s) => !is_parked(crate::json::views(parked@), reply_id) && s@ == id@
                + " has nothing parked with id "@ + decimal_of(reply_id as nat)
                + ". Run `hotl approve "@ + id@ + "` to see what it is waiting on."@,
        },
{
    let ghost all = crate::json::views(parked@);
    let mut i: usize = 0;
    while i < parked.len()
        invariant
            0 <= i <= parked.len(),
            all == crate::json::views(parked@),
            forall|k: int|
                0 <= k < i ==> uint_at(#[trigger] all[k], "id"@) != Some(reply_id),
        decreases parked.len() - i,
    {
        assert(all[i as int] == parked@[i as int]@);
        if let Some(n) = parked[i].uint_field("id") {
            if n == reply_id {
                let mut s = "answered ".to_owned();
                s.append(id);
                s.append(" #");
                s.append(decimal(reply_id).as_str());
                return Ok(s);
            }
        }
        i = i + 1;
    }
    let mut s = id.to_owned();
    s.append(" has nothing parked with id ");
    s.append(decimal(reply_id).as_str());
    s.append(". Run `hotl approve ");
    s.append(id);
    s.append("` to see what it is waiting on.");
    Err(s)
}

/// Nothing but the word `allow` makes a frame that grants.
pub proof fn only_allow_grants(args: Seq<Seq<char>>)
    requires
        args.len() >= 3,
        args[0] == "--ask"@,
        args[2] != "allow"@,
    ensures
        answer_of(args) matches Ok(Some(j)) ==> exists|id: u64| j == #[trigger] ask_answer(id, false),
{
}

/// The frame that allows an ask, read by the session, allows that ask: the two
/// ends agree on the wire.
pub proof fn allowing_reaches_the_ask(
    s: crate::session_server::ServerV,
    id: u64,
    allow: bool,
    read: JsonV,
)
    requires
        crate::session_server::holds_id(s.asks, id),
        crate::json::same_fields(read, ask_answer(id, allow)),
    ensures
        crate::session_server::frame_effect(s, read).1
            == crate::session_server::EffectV::AnswerAsk(
            id,
            if allow {
                crate::engine::AskReplyV::Allow
            } else {
                crate::engine::AskReplyV::Deny(None)
            },
        ),
{
    let f = ask_answer(id, allow);
    let m0 = Seq::<(Seq<char>, JsonV)>::empty();
    let m1 = m0.push(("t"@, JsonV::Str("ask_reply"@)));
    let m2 = m1.push(("id"@, JsonV::Uint(id)));
    let m3 = m2.push(("allow"@, JsonV::Bool(allow)));
    reveal_strlit("t");
    reveal_strlit("id");
    reveal_strlit("allow");
    reveal_strlit("message");
    assert("t"@.len() == 1 && "id"@.len() == 2 && "allow"@.len() == 5 && "message"@.len() == 7);
    crate::json::put_is_found(m0, "t"@, JsonV::Str("ask_reply"@), "id"@);
    crate::json::put_is_found(m0, "t"@, JsonV::Str("ask_reply"@), "allow"@);
    crate::json::put_is_found(m0, "t"@, JsonV::Str("ask_reply"@), "message"@);
    crate::json::put_is_found(m1, "id"@, JsonV::Uint(id), "t"@);
    crate::json::put_is_found(m1, "id"@, JsonV::Uint(id), "allow"@);
    crate::json::put_is_found(m1, "id"@, JsonV::Uint(id), "message"@);
    crate::json::put_is_found(m2, "allow"@, JsonV::Bool(allow), "t"@);
    crate::json::put_is_found(m2, "allow"@, JsonV::Bool(allow), "id"@);
    crate::json::put_is_found(m2, "allow"@, JsonV::Bool(allow), "message"@);
    assert(f->Obj_0 =~= m3);
    assert(field(read, "t"@) == Some(JsonV::Str("ask_reply"@)));
    assert(field(read, "id"@) == Some(JsonV::Uint(id)));
    assert(field(read, "allow"@) == Some(JsonV::Bool(allow)));
    assert(field(read, "message"@) == field(f, "message"@));
    reveal_strlit("prompt");
    reveal_strlit("steer");
    reveal_strlit("continue");
    reveal_strlit("cancel");
    reveal_strlit("ask_reply");
    assert("ask_reply"@.len() == 9);
}

proof fn answer_words_differ()
    ensures
        "t"@ != "id"@,
        "t"@ != "allow"@,
        "id"@ != "allow"@,
        "t"@ != "option"@,
        "id"@ != "option"@,
        "--ask"@ != "--question"@,
        "allow"@ != "deny"@,
        "ask"@ != "question"@,
        "ask"@ != "egress"@,
        "question"@ != "egress"@,
{
    reveal_strlit("t");
    reveal_strlit("id");
    reveal_strlit("allow");
    reveal_strlit("option");
    reveal_strlit("--ask");
    reveal_strlit("--question");
    reveal_strlit("deny");
    reveal_strlit("ask");
    reveal_strlit("question");
    reveal_strlit("egress");
    assert("t"@.len() != "id"@.len());
    assert("t"@.len() != "allow"@.len());
    assert("id"@.len() != "allow"@.len());
    assert("t"@.len() != "option"@.len());
    assert("id"@.len() != "option"@.len());
    assert("--ask"@.len() != "--question"@.len());
    assert("allow"@.len() != "deny"@.len());
    assert("ask"@.len() != "question"@.len());
    assert("ask"@.len() != "egress"@.len());
    assert("question"@.len() != "egress"@.len());
}

/// What is typed is what is sent: an ask is answered under the id typed, allowed
/// for `allow` and not for `deny`; a question is answered with the label typed;
/// and nothing typed asks for the listing.
pub proof fn answers_say_what_was_typed(args: Seq<Seq<char>>, id: u64)
    requires
        args.len() >= 3 ==> args[1] == decimal_of(id as nat),
    ensures
        args.len() == 0 ==> answer_of(args) == Ok::<Option<JsonV>, Seq<char>>(None),
        args.len() >= 3 && args[0] == "--ask"@ && (args[2] == "allow"@ || args[2] == "deny"@) ==> (
        answer_of(args) matches Ok(Some(f)) && text_at(f, "t"@) == Some("ask_reply"@) && uint_at(
            f,
            "id"@,
        ) == Some(id) && crate::json::bool_at(f, "allow"@) == Some(args[2] == "allow"@)),
        args.len() >= 3 && args[0] == "--question"@ ==> (answer_of(args) matches Ok(Some(f))
            && text_at(f, "t"@) == Some("question_reply"@) && uint_at(f, "id"@) == Some(id)
            && text_at(f, "option"@) == Some(args[2])),
{
    broadcast use {crate::json::put_reads, crate::json::nothing_reads};

    answer_words_differ();
    crate::text::numerals_read_back(id as nat, u64::MAX as nat, 0);
}

/// Nothing is sent for a verdict that is neither word, for an id that is no
/// number, for an answer that is cut short, or for another option.
pub proof fn unclear_answers_are_refused(args: Seq<Seq<char>>)
    requires
        args.len() > 0,
    ensures
        args[0] != "--ask"@ && args[0] != "--question"@ ==> answer_of(args) is Err,
        args.len() < 3 ==> answer_of(args) is Err,
        args.len() >= 2 && parsed_unsigned(args[1], u64::MAX as nat) is None ==> answer_of(args)
            is Err,
        args.len() >= 3 && args[0] == "--ask"@ && args[2] != "allow"@ && args[2] != "deny"@
            ==> answer_of(args) is Err,
{
    answer_words_differ();
}

/// What waits for an answer is an ask, a question or an egress ask, and nothing
/// else.
pub proof fn three_kinds_wait(msg: JsonV)
    ensures
        waits(msg) <==> text_at(msg, "t"@) == Some("ask"@) || text_at(msg, "t"@) == Some(
            "question"@,
        ) || text_at(msg, "t"@) == Some("egress"@),
{
}

proof fn labels_filter(options: Seq<JsonV>, n: nat)
    requires
        n <= options.len(),
    ensures
        labels(options, n) == options.take(n as int).filter(
            |o: JsonV| text_at(o, "label"@) is Some,
        ).map_values(|o: JsonV| text_at(o, "label"@)->0),
    decreases n,
{
    reveal(Seq::filter);
    let has = |o: JsonV| text_at(o, "label"@) is Some;
    let label = |o: JsonV| text_at(o, "label"@)->0;
    if n == 0 {
        assert(options.take(0).filter(has).map_values(label) =~= Seq::<Seq<char>>::empty());
    } else {
        labels_filter(options, (n - 1) as nat);
        let t = options.take(n - 1);
        assert(options.take(n as int).drop_last() =~= t);
        assert(options.take(n as int).last() == options[n - 1]);
        if text_at(options[n - 1], "label"@) is Some {
            assert(t.filter(has).push(options[n - 1]).map_values(label) =~= t.filter(
                has,
            ).map_values(label).push(text_at(options[n - 1], "label"@)->0));
        }
    }
}

/// The listing shows each item by its number and in its own words, with the way
/// to answer it: an ask by its summary, a question by its header, its prompt and
/// the labels to choose from, a host by its name.
pub proof fn listings_show_what_waits(msg: JsonV, id: u64)
    requires
        uint_at(msg, "id"@) == Some(id),
    ensures
        ({
            let n = decimal_of(id as nat);
            let d = description(msg);
            &&& text_at(msg, "t"@) == Some("ask"@) && text_at(msg, "summary"@) is Some ==> d == "#"@
                + n + " ask — "@ + text_at(msg, "summary"@)->0 + " (--ask "@ + n + " allow|deny)"@
            &&& text_at(msg, "t"@) == Some("question"@) && text_at(msg, "header"@) is Some
                && text_at(msg, "prompt"@) is Some && array_at(msg, "options"@) is Some ==> d == "#"@
                + n + " question — "@ + text_at(msg, "header"@)->0 + ": "@ + text_at(
                msg,
                "prompt"@,
            )->0 + " (--question "@ + n + " <"@ + joined(
                array_at(msg, "options"@)->0.filter(
                    |o: JsonV| text_at(o, "label"@) is Some,
                ).map_values(|o: JsonV| text_at(o, "label"@)->0),
                "|"@,
            ) + ">)"@
            &&& text_at(msg, "t"@) == Some("egress"@) && text_at(msg, "host"@) is Some ==> d == "#"@
                + n + " egress — "@ + text_at(msg, "host"@)->0 + " (attach to answer)"@
        }),
{
    answer_words_differ();
    if let Some(a) = array_at(msg, "options"@) {
        labels_filter(a, a.len());
        assert(a.take(a.len() as int) =~= a);
    }
}

/// The listing holds a line for every item that waits.
pub proof fn listings_hold_every_item(parked: Seq<JsonV>, n: nat, i: int)
    requires
        0 <= i < n <= parked.len(),
    ensures
        crate::text::occurs(described(parked, n), "  "@ + description(parked[i]) + "\n"@),
    decreases n,
{
    let all = described(parked, n);
    let before = described(parked, (n - 1) as nat);
    let line = "  "@ + description(parked[i]) + "\n"@;
    if i == n - 1 {
        let k = before.len() as int;
        assert(all.subrange(k, k + line.len()) =~= line);
        assert(crate::text::occurs_at(all, line, k));
    } else {
        listings_hold_every_item(parked, (n - 1) as nat, i);
        let k = choose|k: int| crate::text::occurs_at(before, line, k);
        assert(all.subrange(k, k + line.len()) =~= before.subrange(k, k + line.len()));
        assert(crate::text::occurs_at(all, line, k));
    }
}

/// An id waits exactly where one of the items has it.
pub proof fn waiting_ids_are_found(parked: Seq<JsonV>, id: u64)
    ensures
        is_parked(parked, id) <==> parked.map_values(|m: JsonV| uint_at(m, "id"@)).contains(
            Some(id),
        ),
{
    let f = |m: JsonV| uint_at(m, "id"@);
    let ids = parked.map_values(f);
    if is_parked(parked, id) {
        let i = choose|i: int|
            0 <= i < parked.len() && uint_at(#[trigger] parked[i], "id"@) == Some(id);
        assert(ids[i] == Some(id));
    }
    if ids.contains(Some(id)) {
        let i = choose|i: int| 0 <= i < ids.len() && ids[i] == Some(id);
        assert(uint_at(parked[i], "id"@) == Some(id));
    }
}

} // verus!
