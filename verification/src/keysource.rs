//! The key helper: a user-configured command whose trimmed output is the key.
//!
//! The key is cached; once its time to live has passed, the next use runs the
//! command again, and a refusal by the provider runs it unconditionally.
//! Spans and instants are nanoseconds.
use crate::measure::decimal_wide;
use crate::text::{decimal_of, opt_text, trim, trimmed};
use vstd::prelude::*;
use vstd::string::*;
use vstd::utf8::*;

verus! {

/// How long the helper may run.
pub const HELPER_TIMEOUT: u128 = 5_000_000_000;

/// Bytes of output that a key may have.
pub const HELPER_STDOUT_CAP: usize = 65_536;

/// The helper and the key that it gave last.
#[derive(Debug)]
pub struct HelperKey {
    pub command: String,
    pub ttl: Option<u128>,
    pub timeout: u128,
    pub cache: Option<(String, u128)>,
}

/// How a run of the helper ended.
#[derive(Debug)]
pub enum HelperRun {
    TimedOut,
    FailedToStart(String),
    /// The exit status in words, whether it is a success, and both outputs.
    Exited { status: String, success: bool, stdout: Vec<u8>, stderr: Vec<u8> },
}

/// What `String::from_utf8_lossy` makes of bytes.
pub uninterp spec fn lossy_text(b: Seq<u8>) -> Seq<char>;

/// `String::from_utf8_lossy`, named by [`lossy_text`]. Bytes that are UTF-8 give
/// the text that they encode.
#[verifier::external_body]
pub(crate) fn from_utf8_lossy(b: &[u8]) -> (r: String)
    ensures
        r@ == lossy_text(b@),
        valid_utf8(b@) ==> r@ == decode_utf8(b@),
{
    String::from_utf8_lossy(b).into_owned()
}

/// At most the first `n` characters.
pub open spec fn first_chars(s: Seq<char>, n: nat) -> Seq<char> {
    if s.len() <= n {
        s
    } else {
        s.take(n as int)
    }
}

/// The first characters of a text.
pub fn excerpt(s: &str, n: usize) -> (r: String)
    ensures
        r@ == first_chars(s@, n as nat),
{
    let len: usize = s.unicode_len();
    if len <= n {
        s.to_owned()
    } else {
        s.substring_char(0, n).to_owned()
    }
}

/// The start of every message about the helper.
pub open spec fn helper_label(command: Seq<char>) -> Seq<char> {
    "api_key_helper `"@ + command
}

/// What a helper that exited comes to: the key, or what went wrong. `printed` is
/// the number of bytes that it printed, `out` and `err` the texts of its outputs.
pub open spec fn judged_texts(
    command: Seq<char>,
    status: Seq<char>,
    success: bool,
    printed: nat,
    out: Seq<char>,
    err: Seq<char>,
) -> Result<Seq<char>, Seq<char>> {
    if !success {
        Err(
            helper_label(command) + "` exited with "@ + status + ": "@ + first_chars(
                trimmed(err),
                200,
            ),
        )
    } else if printed > HELPER_STDOUT_CAP {
        Err(helper_label(command) + "` printed more than 65536 bytes — that is not a key"@)
    } else if trimmed(out).len() == 0 {
        Err(helper_label(command) + "` printed nothing on stdout — it must print the API key"@)
    } else {
        Ok(trimmed(out))
    }
}

/// What a run of the helper comes to: the key, or what went wrong.
pub open spec fn judged(command: Seq<char>, timeout: nat, run: HelperRun) -> Result<
    Seq<char>,
    Seq<char>,
> {
    match run {
        HelperRun::TimedOut => Err(
            helper_label(command) + "` timed out after "@ + decimal_of(timeout / 1_000_000_000)
                + "s — it must print the key and exit quickly"@,
        ),
        HelperRun::FailedToStart(e) => Err(helper_label(command) + "` failed to start: "@ + e@),
        HelperRun::Exited { status, success, stdout, stderr } => judged_texts(
            command,
            status@,
            success,
            stdout@.len(),
            lossy_text(stdout@),
            lossy_text(stderr@),
        ),
    }
}

/// How long ago `at` was; nothing for an instant still to come.
pub open spec fn age(now: u128, at: u128) -> int {
    if now < at {
        0
    } else {
        now - at
    }
}

impl HelperKey {
    /// A helper without a cached key.
    pub fn new(command: String, ttl: Option<u128>) -> (r: Self)
        ensures
            r.command == command,
            r.ttl == ttl,
            r.timeout == HELPER_TIMEOUT,
            r.cache is None,
    {
        HelperKey { command, ttl, timeout: HELPER_TIMEOUT, cache: None }
    }

    /// The same helper with another time limit.
    pub fn with_timeout(self, t: u128) -> (r: Self)
        ensures
            r.command == self.command,
            r.ttl == self.ttl,
            r.timeout == t,
            r.cache == self.cache,
    {
        HelperKey { command: self.command, ttl: self.ttl, timeout: t, cache: self.cache }
    }

    /// The cached key at the instant `now`, unless its time to live has passed.
    pub open spec fn fresh_key(&self, now: u128) -> Option<Seq<char>> {
        match self.cache {
            None => None,
            Some((key, at)) => match self.ttl {
                Some(ttl) if age(now, at) >= ttl => None,
                _ => Some(key@),
            },
        }
    }

    /// The cached key at the instant `now`, unless its time to live has passed.
    pub fn cached_fresh(&self, now: u128) -> (r: Option<String>)
        ensures
            opt_text(r) == self.fresh_key(now),
    {
        match &self.cache {
            None => None,
            Some((key, at)) => {
                let elapsed: u128 = if now < *at {
                    0
                } else {
                    now - *at
                };
                match self.ttl {
                    Some(ttl) => {
                        if elapsed >= ttl {
                            None
                        } else {
                            Some(key.clone())
                        }
                    },
                    None => Some(key.clone()),
                }
            },
        }
    }

    /// What a helper that exited comes to, given the texts of its outputs and
    /// the number of bytes that it printed.
    pub fn judge_texts(&self, status: &str, success: bool, printed: usize, out: &str, err: &str)
        -> (r: Result<String, String>)
        ensures
            match r {
                Ok(key) => judged_texts(
                    self.command@,
                    status@,
                    success,
                    printed as nat,
                    out@,
                    err@,
                ) == Ok::<Seq<char>, Seq<char>>(key@),
                Err(e) => judged_texts(
                    self.command@,
                    status@,
                    success,
                    printed as nat,
                    out@,
                    err@,
                ) == Err::<Seq<char>, Seq<char>>(e@),
            },
    {
        let mut m = "api_key_helper `".to_owned();
        m.append(self.command.as_str());
        if !success {
            m.append("` exited with ");
            m.append(status);
            m.append(": ");
            m.append(excerpt(trim(err), 200).as_str());
            return Err(m);
        }
        if printed > HELPER_STDOUT_CAP {
            m.append("` printed more than 65536 bytes — that is not a key");
            return Err(m);
        }
        let key = trim(out);
        if key.is_empty() {
            m.append("` printed nothing on stdout — it must print the API key");
            return Err(m);
        }
        Ok(key.to_owned())
    }

    /// What a run of the helper comes to. A helper that succeeds and prints
    /// UTF-8 gives the trimmed text.
    pub fn judge(&self, run: &HelperRun) -> (r: Result<String, String>)
        ensures
            match r {
                Ok(key) => judged(self.command@, self.timeout as nat, *run) == Ok::<
                    Seq<char>,
                    Seq<char>,
                >(key@),
                Err(e) => judged(self.command@, self.timeout as nat, *run) == Err::<
                    Seq<char>,
                    Seq<char>,
                >(e@),
            },
            run matches HelperRun::Exited { success: true, stdout, .. } ==> valid_utf8(stdout@)
                && stdout@.len() <= HELPER_STDOUT_CAP && trimmed(decode_utf8(stdout@)).len() > 0
                ==> r is Ok && r->Ok_0@ == trimmed(decode_utf8(stdout@)),
    {
        match run {
            HelperRun::TimedOut => {
                let mut m = "api_key_helper `".to_owned();
                m.append(self.command.as_str());
                m.append("` timed out after ");
                m.append(decimal_wide(self.timeout / 1_000_000_000).as_str());
                m.append("s — it must print the key and exit quickly");
                Err(m)
            },
            HelperRun::FailedToStart(e) => {
                let mut m = "api_key_helper `".to_owned();
                m.append(self.command.as_str());
                m.append("` failed to start: ");
                m.append(e.as_str());
                Err(m)
            },
            HelperRun::Exited { status, success, stdout, stderr } => {
                let out = from_utf8_lossy(stdout.as_slice());
                let err = from_utf8_lossy(stderr.as_slice());
                self.judge_texts(
                    status.as_str(),
                    *success,
                    stdout.len(),
                    out.as_str(),
                    err.as_str(),
                )
            },
        }
    }

    /// Takes in a run of the helper that ended at `now`: a key is cached and
    /// handed out, and a failure leaves the cache as it was.
    pub fn settle(&mut self, run: &HelperRun, now: u128) -> (r: Result<String, String>)
        ensures
            final(self).command == old(self).command,
            final(self).ttl == old(self).ttl,
            final(self).timeout == old(self).timeout,
            match r {
                Ok(key) => {
                    &&& judged(old(self).command@, old(self).timeout as nat, *run) == Ok::<
                        Seq<char>,
                        Seq<char>,
                    >(key@)
                    &&& final(self).cache matches Some((k, at))
                    &&& k@ == key@
                    &&& at == now
                },
                Err(e) => {
                    &&& judged(old(self).command@, old(self).timeout as nat, *run) == Err::<
                        Seq<char>,
                        Seq<char>,
                    >(e@)
                    &&& final(self).cache == old(self).cache
                },
            },
    {
        match self.judge(run) {
            Ok(key) => {
                self.cache = Some((key.clone(), now));
                Ok(key)
            },
            Err(e) => Err(e),
        }
    }
}

/// Without a time to live a cached key stays until it is refused; with one of
/// zero it is always stale.
pub proof fn cache_lifetimes(h: HelperKey, now: u128)
    ensures
        h.ttl is None ==> (h.cache matches Some((key, _)) ==> h.fresh_key(now) == Some(key@)),
        h.ttl == Some(0u128) ==> h.fresh_key(now) is None,
{
}

/// A helper's key is what it printed, without white space at its ends, where it
/// ended well, printed at most 65536 bytes and printed something; else there is no
/// key.
pub proof fn keys_are_what_was_printed(
    command: Seq<char>,
    status: Seq<char>,
    success: bool,
    printed: nat,
    out: Seq<char>,
    err: Seq<char>,
)
    ensures
        ({
            let j = judged_texts(command, status, success, printed, out, err);
            &&& success && printed <= 65536 && trimmed(out).len() > 0 ==> j == Ok::<
                Seq<char>,
                Seq<char>,
            >(trimmed(out))
            &&& !success || printed > 65536 || trimmed(out).len() == 0 ==> j is Err
        }),
{
}

/// What a helper printed shows in no error: two runs that differ in their output
/// alone, and both fail, fail in the same words. The words name the command.
pub proof fn errors_hold_no_key(
    command: Seq<char>,
    status: Seq<char>,
    success: bool,
    printed: nat,
    a: Seq<char>,
    b: Seq<char>,
    err: Seq<char>,
)
    ensures
        ({
            let x = judged_texts(command, status, success, printed, a, err);
            let y = judged_texts(command, status, success, printed, b, err);
            &&& x is Err && y is Err ==> x == y
            &&& x matches Err(e) ==> crate::text::occurs(e, command)
        }),
{
    if let Err(e) = judged_texts(command, status, success, printed, a, err) {
        let k = "api_key_helper `"@.len() as int;
        assert(e.subrange(k, k + command.len()) =~= command);
        assert(crate::text::occurs_at(e, command, k));
    }
}

/// A failed helper is told with its status and with the start of what it wrote to
/// standard error, 200 characters at most.
pub proof fn failures_quote_the_start(
    command: Seq<char>,
    status: Seq<char>,
    printed: nat,
    out: Seq<char>,
    err: Seq<char>,
)
    ensures
        judged_texts(command, status, false, printed, out, err) matches Err(e) && crate::text::occurs(
            e,
            status,
        ) && trimmed(err).take(
            if trimmed(err).len() < 200 {
                trimmed(err).len() as int
            } else {
                200
            },
        ).is_suffix_of(e),
        first_chars(err, 200).is_prefix_of(err),
        first_chars(err, 200).len() == (if err.len() < 200 {
            err.len()
        } else {
            200
        }),
{
    let t = trimmed(err);
    assert(t.take(t.len() as int) =~= t);
    assert(err.take(err.len() as int) =~= err);
    let e = judged_texts(command, status, false, printed, out, err)->Err_0;
    let q = first_chars(t, 200);
    assert(e.skip(e.len() - q.len()) =~= q);
    let k = (helper_label(command) + "` exited with "@).len() as int;
    assert(e.subrange(k, k + status.len()) =~= status);
    assert(crate::text::occurs_at(e, status, k));
}

/// A cached key is handed out until its span is over, counted from when it was
/// cached; without a span it is handed out for good, and without a key nothing is.
pub proof fn cached_keys_last_their_span(h: HelperKey, now: u128)
    ensures
        h.cache is None ==> h.fresh_key(now) is None,
        h.cache matches Some((key, at)) ==> {
            &&& h.ttl is None ==> h.fresh_key(now) == Some(key@)
            &&& h.ttl is Some && h.ttl->0 > 0 && now < at + h.ttl->0 ==> h.fresh_key(now) == Some(
                key@,
            )
            &&& h.ttl is Some && now >= at + h.ttl->0 ==> h.fresh_key(now) is None
        },
{
}

/// A run that did not end is no key, and is told with the command and the reason: the
/// seconds that it was given, or why it did not start. One that ended is judged by what
/// it wrote.
pub proof fn runs_without_an_end_give_no_key(command: Seq<char>, timeout: nat, error: String)
    ensures
        judged(command, timeout, HelperRun::TimedOut) matches Err(e) && crate::text::occurs(
            e,
            command,
        ) && crate::text::occurs(e, decimal_of(timeout / 1_000_000_000)),
        judged(command, timeout, HelperRun::FailedToStart(error)) matches Err(e)
            && crate::text::occurs(e, command) && error@.is_suffix_of(e),
{
    let k = "api_key_helper `"@.len() as int;
    let n = decimal_of(timeout / 1_000_000_000);
    let e = judged(command, timeout, HelperRun::TimedOut)->Err_0;
    assert(e.subrange(k, k + command.len()) =~= command);
    assert(crate::text::occurs_at(e, command, k));
    let m = (helper_label(command) + "` timed out after "@).len() as int;
    assert(e.subrange(m, m + n.len()) =~= n);
    assert(crate::text::occurs_at(e, n, m));
    let f = judged(command, timeout, HelperRun::FailedToStart(error))->Err_0;
    assert(f.subrange(k, k + command.len()) =~= command);
    assert(crate::text::occurs_at(f, command, k));
    assert(f.skip(f.len() - error@.len()) =~= error@);
}

/// A run that ended is judged by its own status and by the text of what it wrote.
pub proof fn ended_runs_are_judged_by_their_text(
    command: Seq<char>,
    timeout: nat,
    status: String,
    stdout: Vec<u8>,
    stderr: Vec<u8>,
)
    ensures
        ({
            let out = lossy_text(stdout@);
            let j = judged(
                command,
                timeout,
                HelperRun::Exited { status, success: true, stdout, stderr },
            );
            &&& stdout@.len() <= 65536 && trimmed(out).len() > 0 ==> j == Ok::<
                Seq<char>,
                Seq<char>,
            >(trimmed(out))
            &&& stdout@.len() > 65536 || trimmed(out).len() == 0 ==> j is Err
        }),
        judged(command, timeout, HelperRun::Exited { status, success: false, stdout, stderr })
            is Err,
{
}

} // verus!
