//! Putting a copied selection on the clipboard by every route that applies.
use crate::base64::{encode, encoded, encoded_shape, in_alphabet, padding};
use crate::text::texts;
use vstd::prelude::*;
use vstd::string::*;
use vstd::utf8::*;

verus! {

/// The operating systems that differ in their clipboard programs.
#[derive(Debug, Clone, Copy, PartialEq, Eq, Structural)]
pub enum Os {
    Mac,
    Windows,
    Other,
}

/// The OSC 52 clipboard write: `ESC ] 52 ; c ; <base64> BEL`.
pub open spec fn osc52_text(text: Seq<char>) -> Seq<char> {
    "\x1b]52;c;"@ + encoded(encode_utf8(text)) + "\x07"@
}

/// The OSC 52 clipboard write of `text`. Base64 keeps line feeds and control
/// bytes in the copied text from ending the sequence early.
pub fn osc52(text: &str) -> (r: String)
    ensures
        r@ == osc52_text(text@),
{
    let mut s = "\x1b]52;c;".to_owned();
    s.append(encode(text.as_bytes()).as_str());
    s.append("\x07");
    s
}

/// The payload of the sequence holds neither its terminator nor an escape, and
/// decodes to the copied text.
pub proof fn payload_is_contained(text: Seq<char>)
    ensures
        !encoded(encode_utf8(text)).contains('\x07'),
        !encoded(encode_utf8(text)).contains('\x1b'),
        crate::base64::decoded(encoded(encode_utf8(text))) == encode_utf8(text),
        decode_utf8(crate::base64::decoded(encoded(encode_utf8(text)))) == text,
{
    let b = encode_utf8(text);
    let e = encoded(b);
    encoded_shape(b);
    assert forall|i: int| 0 <= i < e.len() implies e[i] != '\x07' && e[i] != '\x1b' by {
        if i < e.len() - padding(b.len()) {
            assert(in_alphabet(e[i]));
        } else {
            assert(e[i] == '=');
        }
    }
    crate::base64::decodes_back(b);
    encode_utf8_decode_utf8(text);
}

/// `tmux load-buffer -w -`, which forwards to the outer terminal's clipboard.
pub open spec fn tmux_words() -> Seq<Seq<char>> {
    seq!["tmux"@, "load-buffer"@, "-w"@, "-"@]
}

/// The tmux sink, present exactly under tmux.
pub fn tmux_argv(in_tmux: bool) -> (r: Option<Vec<String>>)
    ensures
        match r {
            Some(v) => in_tmux && texts(v@) == tmux_words(),
            None => !in_tmux,
        },
{
    if !in_tmux {
        return None;
    }
    let mut v: Vec<String> = Vec::new();
    v.push("tmux".to_owned());
    v.push("load-buffer".to_owned());
    v.push("-w".to_owned());
    v.push("-".to_owned());
    assert(texts(v@) =~= tmux_words());
    Some(v)
}

/// The argument lists of a list of commands.
pub open spec fn argvs(v: Seq<Vec<String>>) -> Seq<Seq<Seq<char>>> {
    Seq::new(v.len(), |i: int| texts(v[i]@))
}

/// The native clipboard programs of a system.
pub open spec fn native_words(os: Os) -> Seq<Seq<Seq<char>>> {
    match os {
        Os::Mac => seq![seq!["pbcopy"@]],
        Os::Windows => seq![seq!["clip"@]],
        Os::Other => seq![
            seq!["wl-copy"@],
            seq!["xclip"@, "-selection"@, "clipboard"@],
            seq!["xsel"@, "--clipboard"@, "--input"@],
        ],
    }
}

fn words1(a: &str) -> (r: Vec<String>)
    ensures
        texts(r@) == seq![a@],
{
    let mut v: Vec<String> = Vec::new();
    v.push(a.to_owned());
    assert(texts(v@) =~= seq![a@]);
    v
}

fn words3(a: &str, b: &str, c: &str) -> (r: Vec<String>)
    ensures
        texts(r@) == seq![a@, b@, c@],
{
    let mut v: Vec<String> = Vec::new();
    v.push(a.to_owned());
    v.push(b.to_owned());
    v.push(c.to_owned());
    assert(texts(v@) =~= seq![a@, b@, c@]);
    v
}

/// The native clipboard programs of a system, all of which are tried: one that
/// starts and does nothing must not shadow the one that fits.
pub fn native_candidates(os: Os) -> (r: Vec<Vec<String>>)
    ensures
        argvs(r@) == native_words(os),
{
    let mut v: Vec<Vec<String>> = Vec::new();
    match os {
        Os::Mac => {
            v.push(words1("pbcopy"));
        },
        Os::Windows => {
            v.push(words1("clip"));
        },
        Os::Other => {
            v.push(words1("wl-copy"));
            v.push(words3("xclip", "-selection", "clipboard"));
            v.push(words3("xsel", "--clipboard", "--input"));
        },
    }
    assert(argvs(v@) =~= native_words(os));
    v
}

/// The in-band half: the escape, at the end of what is written to the terminal.
pub fn emit_osc52(out: &mut Vec<u8>, text: &str)
    ensures
        final(out)@ == old(out)@ + encode_utf8(osc52_text(text@)),
{
    let s = osc52(text);
    let b = s.as_str().as_bytes();
    let ghost start = out@;
    let mut i: usize = 0;
    assert(start + b@.take(0) =~= start);
    while i < b.len()
        invariant
            0 <= i <= b.len(),
            out@ == start + b@.take(i as int),
        decreases b.len() - i,
    {
        out.push(b[i]);
        i = i + 1;
        assert(out@ =~= start + b@.take(i as int));
    }
    assert(b@.take(i as int) =~= b@);
}

/// The programs that the text is handed to: tmux where it runs, and then every
/// native one.
pub open spec fn sinks(in_tmux: bool, os: Os) -> Seq<Seq<Seq<char>>> {
    if in_tmux {
        seq![tmux_words()] + native_words(os)
    } else {
        native_words(os)
    }
}

/// Puts `text` on the clipboard by every route that applies: the escape goes to
/// `out`, and the result lists the programs to feed the text to.
pub fn copy(out: &mut Vec<u8>, text: &str, in_tmux: bool, os: Os) -> (r: Vec<Vec<String>>)
    ensures
        final(out)@ == old(out)@ + encode_utf8(osc52_text(text@)),
        argvs(r@) == sinks(in_tmux, os),
{
    emit_osc52(out, text);
    let mut all: Vec<Vec<String>> = Vec::new();
    if let Some(argv) = tmux_argv(in_tmux) {
        all.push(argv);
        assert(argvs(all@) =~= seq![tmux_words()]);
    }
    let ghost start = argvs(all@);
    let mut native = native_candidates(os);
    let ghost nv = native@;
    all.append(&mut native);
    assert(argvs(all@) =~= start + argvs(nv));
    assert(argvs(all@) =~= sinks(in_tmux, os));
    all
}

/// The sequence that copies starts with the escape for the clipboard, ends with the
/// bell, and holds between them the text, encoded: taken apart again it is the text.
pub proof fn the_clipboard_gets_the_text(text: Seq<char>)
    ensures
        ({
            let s = osc52_text(text);
            let head = seq!['\x1b', ']', '5', '2', ';', 'c', ';'];
            &&& s.len() >= 8
            &&& s.take(7) == head
            &&& s.last() == '\x07'
            &&& decode_utf8(crate::base64::decoded(s.subrange(7, s.len() - 1))) == text
        }),
{
    reveal_strlit("\x1b]52;c;");
    reveal_strlit("\x07");
    let s = osc52_text(text);
    payload_is_contained(text);
    assert(s.take(7) =~= seq!['\x1b', ']', '5', '2', ';', 'c', ';']);
    assert(s.subrange(7, s.len() - 1) =~= encoded(encode_utf8(text)));
}

/// Inside tmux its own buffer is loaded first, and next the system's programs are
/// tried as anywhere else, in their order.
pub proof fn programs_are_tried_in_order(in_tmux: bool, os: Os)
    ensures
        sinks(true, os).len() == sinks(false, os).len() + 1,
        sinks(true, os)[0] == seq!["tmux"@, "load-buffer"@, "-w"@, "-"@],
        sinks(true, os).skip(1) == sinks(false, os),
        sinks(false, Os::Mac) == seq![seq!["pbcopy"@]],
        sinks(false, Os::Windows) == seq![seq!["clip"@]],
        sinks(false, Os::Other) == seq![
            seq!["wl-copy"@],
            seq!["xclip"@, "-selection"@, "clipboard"@],
            seq!["xsel"@, "--clipboard"@, "--input"@],
        ],
{
    assert(sinks(true, os).skip(1) =~= sinks(false, os));
}

} // verus!
