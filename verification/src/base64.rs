//! RFC 4648 base64, standard alphabet, padded.
use crate::text::is_alnum;
use vstd::prelude::*;
use vstd::string::*;

verus! {

/// The character for a six-bit value.
pub open spec fn sextet_char(v: nat) -> char {
    if v < 26 {
        (65 + v) as u8 as char
    } else if v < 52 {
        (71 + v) as u8 as char
    } else if v < 62 {
        (v - 4) as u8 as char
    } else if v == 62 {
        '+'
    } else {
        '/'
    }
}

/// The six-bit value of a character of the alphabet.
pub open spec fn sextet_value(c: char) -> nat {
    if 'A' <= c <= 'Z' {
        (c as u32 - 65) as nat
    } else if 'a' <= c <= 'z' {
        (c as u32 - 71) as nat
    } else if '0' <= c <= '9' {
        (c as u32 + 4) as nat
    } else if c == '+' {
        62
    } else {
        63
    }
}

/// Whether `c` belongs to the alphabet.
pub open spec fn in_alphabet(c: char) -> bool {
    is_alnum(c) || c == '+' || c == '/'
}

/// The characters for one group of up to three bytes.
#[verifier::opaque]
pub open spec fn group(b: Seq<u8>) -> Seq<char> {
    if b.len() >= 3 {
        let v = b[0] as nat * 65536 + b[1] as nat * 256 + b[2] as nat;
        seq![
            sextet_char(v / 262144),
            sextet_char(v / 4096 % 64),
            sextet_char(v / 64 % 64),
            sextet_char(v % 64),
        ]
    } else if b.len() == 2 {
        let v = b[0] as nat * 1024 + b[1] as nat * 4;
        seq![sextet_char(v / 4096), sextet_char(v / 64 % 64), sextet_char(v % 64), '=']
    } else {
        let v = b[0] as nat * 16;
        seq![sextet_char(v / 64), sextet_char(v % 64), '=', '=']
    }
}

/// The base64 text of `b`: four characters for every three bytes.
pub open spec fn encoded(b: Seq<u8>) -> Seq<char>
    decreases b.len(),
{
    if b.len() == 0 {
        Seq::empty()
    } else if b.len() <= 3 {
        group(b)
    } else {
        group(b.take(3)) + encoded(b.skip(3))
    }
}

fn sextet(v: u32) -> (c: char)
    requires
        v < 64,
    ensures
        c == sextet_char(v as nat),
{
    if v < 26 {
        (65u8 + v as u8) as char
    } else if v < 52 {
        (71u8 + v as u8) as char
    } else if v < 62 {
        (v as u8 - 4u8) as char
    } else if v == 62 {
        '+'
    } else {
        '/'
    }
}

proof fn encoded_append(b: Seq<u8>, n: int)
    requires
        0 <= n < b.len(),
        n % 3 == 0,
    ensures
        encoded(b) == encoded(b.take(n)) + encoded(b.skip(n)),
    decreases n,
{
    if n == 0 {
        assert(b.take(0).len() == 0);
        assert(b.skip(0) == b);
        assert(encoded(b.take(0)) + encoded(b) == encoded(b));
    } else {
        let c = b.skip(3);
        encoded_append(c, n - 3);
        assert(c.take(n - 3) == b.take(n).skip(3));
        assert(c.skip(n - 3) == b.skip(n));
        assert(b.take(n).take(3) == b.take(3));
        if n == 3 {
            assert(b.take(n) == b.take(3));
            assert(c.take(0).len() == 0);
            assert(encoded(b.take(3)) == group(b.take(3)));
        } else {
            assert(encoded(b.take(n)) == group(b.take(3)) + encoded(c.take(n - 3)));
        }
        assert(encoded(b) == group(b.take(3)) + encoded(c));
        assert(encoded(b) == encoded(b.take(n)) + encoded(b.skip(n)));
    }
}

fn push_three(out: &mut String, x: u8, y: u8, z: u8)
    ensures
        final(out)@ == old(out)@ + group(seq![x, y, z]),
{
    let v: u32 = x as u32 * 65536 + y as u32 * 256 + z as u32;
    proof {
        reveal(group);
        split_three(x as u32, y as u32, z as u32, v);
    }
    out.push(sextet(v / 262144));
    out.push(sextet(v / 4096 % 64));
    out.push(sextet(v / 64 % 64));
    out.push(sextet(v % 64));
    assert(out@ =~= old(out)@ + group(seq![x, y, z]));
}

fn push_two(out: &mut String, x: u8, y: u8)
    ensures
        final(out)@ == old(out)@ + group(seq![x, y]),
{
    let v: u32 = x as u32 * 1024 + y as u32 * 4;
    proof {
        reveal(group);
        split_two(x as u32, y as u32, v);
    }
    out.push(sextet(v / 4096));
    out.push(sextet(v / 64 % 64));
    out.push(sextet(v % 64));
    out.push('=');
    assert(out@ =~= old(out)@ + group(seq![x, y]));
}

fn push_one(out: &mut String, x: u8)
    ensures
        final(out)@ == old(out)@ + group(seq![x]),
{
    let v: u32 = x as u32 * 16;
    proof {
        reveal(group);
    }
    out.push(sextet(v / 64));
    out.push(sextet(v % 64));
    out.push('=');
    out.push('=');
    assert(out@ =~= old(out)@ + group(seq![x]));
}

/// Encodes bytes as base64.
pub fn encode(b: &[u8]) -> (r: String)
    ensures
        r@ == encoded(b@),
{
    let mut out = String::new();
    let mut i: usize = 0;
    let n: usize = b.len();
    while n - i > 3
        invariant
            n == b.len(),
            0 <= i <= n,
            i % 3 == 0,
            i == n ==> n == 0,
            out@ == encoded(b@.take(i as int)),
        decreases n - i,
    {
        let ghost before = out@;
        push_three(&mut out, b[i], b[i + 1], b[i + 2]);
        proof {
            let t = b@.take(i + 3);
            let g = seq![b@[i as int], b@[i + 1], b@[i + 2]];
            assert(t.skip(i as int) == g);
            assert(t.take(i as int) == b@.take(i as int));
            encoded_append(t, i as int);
            assert(encoded(g) == group(g));
            assert(out@ == before + group(g));
        }
        i = i + 3;
    }
    if n == i {
        assert(b@.take(i as int) == b@);
        return out;
    }
    let ghost g = b@.skip(i as int);
    proof {
        encoded_append(b@, i as int);
        assert(encoded(g) == group(g));
    }
    if n - i == 3 {
        push_three(&mut out, b[i], b[i + 1], b[i + 2]);
        assert(g == seq![b@[i as int], b@[i + 1], b@[i + 2]]);
    } else if n - i == 2 {
        push_two(&mut out, b[i], b[i + 1]);
        assert(g == seq![b@[i as int], b@[i + 1]]);
    } else {
        push_one(&mut out, b[i]);
        assert(g == seq![b@[i as int]]);
    }
    out
}

/// The bytes that a group of four characters stands for.
#[verifier::opaque]
pub open spec fn ungroup(c: Seq<char>) -> Seq<u8> {
    if c[2] == '=' {
        let v = sextet_value(c[0]) * 64 + sextet_value(c[1]);
        seq![(v / 16) as u8]
    } else if c[3] == '=' {
        let v = sextet_value(c[0]) * 4096 + sextet_value(c[1]) * 64 + sextet_value(c[2]);
        seq![(v / 1024) as u8, (v / 4 % 256) as u8]
    } else {
        let v = sextet_value(c[0]) * 262144 + sextet_value(c[1]) * 4096 + sextet_value(c[2]) * 64
            + sextet_value(c[3]);
        seq![(v / 65536) as u8, (v / 256 % 256) as u8, (v % 256) as u8]
    }
}

/// The bytes that a base64 text stands for, group by group.
pub open spec fn decoded(c: Seq<char>) -> Seq<u8>
    decreases c.len(),
{
    if c.len() < 4 {
        Seq::empty()
    } else {
        ungroup(c.take(4)) + decoded(c.skip(4))
    }
}

proof fn sextet_reads_back(v: nat)
    requires
        v < 64,
    ensures
        sextet_value(sextet_char(v)) == v,
        in_alphabet(sextet_char(v)),
        sextet_char(v) != '=',
{
}

proof fn split_three(x: u32, y: u32, z: u32, v: u32)
    by (bit_vector)
    requires
        x < 256,
        y < 256,
        z < 256,
        v == x * 65536 + y * 256 + z,
    ensures
        v / 262144 < 64,
        v == v / 262144 * 262144 + v / 4096 % 64 * 4096 + v / 64 % 64 * 64 + v % 64,
        v / 65536 == x,
        v / 256 % 256 == y,
        v % 256 == z,
{
}

proof fn split_two(x: u32, y: u32, v: u32)
    by (bit_vector)
    requires
        x < 256,
        y < 256,
        v == x * 1024 + y * 4,
    ensures
        v / 4096 < 64,
        v == v / 4096 * 4096 + v / 64 % 64 * 64 + v % 64,
        v / 1024 == x,
        v / 4 % 256 == y,
{
}

proof fn three_reads_back(b: Seq<u8>)
    requires
        b.len() == 3,
    ensures
        group(b).len() == 4,
        ungroup(group(b)) == b,
        forall|i: int| 0 <= i < 4 ==> in_alphabet(#[trigger] group(b)[i]),
{
    reveal(group);
    reveal(ungroup);
    let v = b[0] as nat * 65536 + b[1] as nat * 256 + b[2] as nat;
    split_three(b[0] as u32, b[1] as u32, b[2] as u32, v as u32);
    sextet_reads_back(v / 262144);
    sextet_reads_back(v / 4096 % 64);
    sextet_reads_back(v / 64 % 64);
    sextet_reads_back(v % 64);
    assert(ungroup(group(b)) =~= b);
}

proof fn two_reads_back(b: Seq<u8>)
    requires
        b.len() == 2,
    ensures
        group(b).len() == 4,
        ungroup(group(b)) == b,
        forall|i: int| 0 <= i < 3 ==> in_alphabet(#[trigger] group(b)[i]),
        group(b)[3] == '=',
{
    reveal(group);
    reveal(ungroup);
    let v = b[0] as nat * 1024 + b[1] as nat * 4;
    split_two(b[0] as u32, b[1] as u32, v as u32);
    sextet_reads_back(v / 4096);
    sextet_reads_back(v / 64 % 64);
    sextet_reads_back(v % 64);
    assert(ungroup(group(b)) =~= b);
}

proof fn one_reads_back(b: Seq<u8>)
    requires
        b.len() == 1,
    ensures
        group(b).len() == 4,
        ungroup(group(b)) == b,
        forall|i: int| 0 <= i < 2 ==> in_alphabet(#[trigger] group(b)[i]),
        group(b)[2] == '=',
        group(b)[3] == '=',
{
    reveal(group);
    reveal(ungroup);
    let v = b[0] as nat * 16;
    sextet_reads_back(v / 64);
    sextet_reads_back(v % 64);
    assert(ungroup(group(b)) =~= b);
}

proof fn group_reads_back(b: Seq<u8>)
    requires
        1 <= b.len() <= 3,
    ensures
        group(b).len() == 4,
        ungroup(group(b)) == b,
        forall|i: int| 0 <= i <= b.len() ==> in_alphabet(#[trigger] group(b)[i]),
        forall|i: int| b.len() < i < 4 ==> #[trigger] group(b)[i] == '=',
{
    if b.len() == 3 {
        three_reads_back(b);
    } else if b.len() == 2 {
        two_reads_back(b);
    } else {
        one_reads_back(b);
    }
}

/// Decoding gives the bytes back.
pub proof fn decodes_back(b: Seq<u8>)
    ensures
        decoded(encoded(b)) == b,
    decreases b.len(),
{
    if b.len() == 0 {
    } else if b.len() <= 3 {
        group_reads_back(b);
        let e = encoded(b);
        assert(e.take(4) == e);
        assert(e.skip(4).len() == 0);
        assert(ungroup(e.take(4)) + decoded(e.skip(4)) == b);
    } else {
        let h = b.take(3);
        group_reads_back(h);
        decodes_back(b.skip(3));
        let e = encoded(b);
        assert(e.take(4) == group(h));
        assert(e.skip(4) == encoded(b.skip(3)));
        assert(h + b.skip(3) == b);
    }
}

/// How many padding characters the text of `n` bytes ends with.
pub open spec fn padding(n: nat) -> nat {
    ((3 - n % 3) % 3) as nat
}

/// The shape of a base64 text: four characters for each three bytes begun,
/// letters of the alphabet and then the padding.
pub proof fn encoded_shape(b: Seq<u8>)
    ensures
        encoded(b).len() == (b.len() + 2) / 3 * 4,
        forall|i: int|
            0 <= i < encoded(b).len() - padding(b.len()) ==> in_alphabet(#[trigger] encoded(b)[i]),
        forall|i: int|
            encoded(b).len() - padding(b.len()) <= i < encoded(b).len() ==> #[trigger] encoded(b)[i]
                == '=',
    decreases b.len(),
{
    if b.len() == 0 {
    } else if b.len() <= 3 {
        group_reads_back(b);
    } else {
        let h = b.take(3);
        group_reads_back(h);
        encoded_shape(b.skip(3));
        let e = encoded(b);
        let t = encoded(b.skip(3));
        assert(padding(b.len()) == padding((b.len() - 3) as nat));
        assert forall|i: int| 0 <= i < e.len() - padding(b.len()) implies in_alphabet(
            #[trigger] e[i],
        ) by {
            if i < 4 {
                assert(e[i] == group(h)[i]);
            } else {
                assert(e[i] == t[i - 4]);
            }
        }
        assert forall|i: int| e.len() - padding(b.len()) <= i < e.len() implies #[trigger] e[i]
            == '=' by {
            assert(e[i] == t[i - 4]);
        }
    }
}

/// The alphabet is the standard one, in its order.
pub proof fn the_alphabet_is_standard(v: nat)
    requires
        v < 64,
    ensures
        sextet_char(v) == "ABCDEFGHIJKLMNOPQRSTUVWXYZabcdefghijklmnopqrstuvwxyz0123456789+/"@[v as int],
        sextet_value("ABCDEFGHIJKLMNOPQRSTUVWXYZabcdefghijklmnopqrstuvwxyz0123456789+/"@[v as int]) == v,
{
    reveal_strlit("ABCDEFGHIJKLMNOPQRSTUVWXYZabcdefghijklmnopqrstuvwxyz0123456789+/");
    let a = "ABCDEFGHIJKLMNOPQRSTUVWXYZabcdefghijklmnopqrstuvwxyz0123456789+/"@;
    assert(a[0] == 'A');
    assert(a[1] == 'B');
    assert(a[2] == 'C');
    assert(a[3] == 'D');
    assert(a[4] == 'E');
    assert(a[5] == 'F');
    assert(a[6] == 'G');
    assert(a[7] == 'H');
    assert(a[8] == 'I');
    assert(a[9] == 'J');
    assert(a[10] == 'K');
    assert(a[11] == 'L');
    assert(a[12] == 'M');
    assert(a[13] == 'N');
    assert(a[14] == 'O');
    assert(a[15] == 'P');
    assert(a[16] == 'Q');
    assert(a[17] == 'R');
    assert(a[18] == 'S');
    assert(a[19] == 'T');
    assert(a[20] == 'U');
    assert(a[21] == 'V');
    assert(a[22] == 'W');
    assert(a[23] == 'X');
    assert(a[24] == 'Y');
    assert(a[25] == 'Z');
    assert(a[26] == 'a');
    assert(a[27] == 'b');
    assert(a[28] == 'c');
    assert(a[29] == 'd');
    assert(a[30] == 'e');
    assert(a[31] == 'f');
    assert(a[32] == 'g');
    assert(a[33] == 'h');
    assert(a[34] == 'i');
    assert(a[35] == 'j');
    assert(a[36] == 'k');
    assert(a[37] == 'l');
    assert(a[38] == 'm');
    assert(a[39] == 'n');
    assert(a[40] == 'o');
    assert(a[41] == 'p');
    assert(a[42] == 'q');
    assert(a[43] == 'r');
    assert(a[44] == 's');
    assert(a[45] == 't');
    assert(a[46] == 'u');
    assert(a[47] == 'v');
    assert(a[48] == 'w');
    assert(a[49] == 'x');
    assert(a[50] == 'y');
    assert(a[51] == 'z');
    assert(a[52] == '0');
    assert(a[53] == '1');
    assert(a[54] == '2');
    assert(a[55] == '3');
    assert(a[56] == '4');
    assert(a[57] == '5');
    assert(a[58] == '6');
    assert(a[59] == '7');
    assert(a[60] == '8');
    assert(a[61] == '9');
    assert(a[62] == '+');
    assert(a[63] == '/');
    if v < 32 {
        low_half(v, a);
    } else {
        high_half(v, a);
    }
}

proof fn low_half(v: nat, a: Seq<char>)
    requires
        0 <= v < 32,
        a[0] == 'A',
        a[1] == 'B',
        a[2] == 'C',
        a[3] == 'D',
        a[4] == 'E',
        a[5] == 'F',
        a[6] == 'G',
        a[7] == 'H',
        a[8] == 'I',
        a[9] == 'J',
        a[10] == 'K',
        a[11] == 'L',
        a[12] == 'M',
        a[13] == 'N',
        a[14] == 'O',
        a[15] == 'P',
        a[16] == 'Q',
        a[17] == 'R',
        a[18] == 'S',
        a[19] == 'T',
        a[20] == 'U',
        a[21] == 'V',
        a[22] == 'W',
        a[23] == 'X',
        a[24] == 'Y',
        a[25] == 'Z',
        a[26] == 'a',
        a[27] == 'b',
        a[28] == 'c',
        a[29] == 'd',
        a[30] == 'e',
        a[31] == 'f',
    ensures
        sextet_char(v) == a[v as int],
        sextet_value(a[v as int]) == v,
{
    if v == 0 {
        assert(sextet_char(0) == 'A');
    }
    if v == 1 {
        assert(sextet_char(1) == 'B');
    }
    if v == 2 {
        assert(sextet_char(2) == 'C');
    }
    if v == 3 {
        assert(sextet_char(3) == 'D');
    }
    if v == 4 {
        assert(sextet_char(4) == 'E');
    }
    if v == 5 {
        assert(sextet_char(5) == 'F');
    }
    if v == 6 {
        assert(sextet_char(6) == 'G');
    }
    if v == 7 {
        assert(sextet_char(7) == 'H');
    }
    if v == 8 {
        assert(sextet_char(8) == 'I');
    }
    if v == 9 {
        assert(sextet_char(9) == 'J');
    }
    if v == 10 {
        assert(sextet_char(10) == 'K');
    }
    if v == 11 {
        assert(sextet_char(11) == 'L');
    }
    if v == 12 {
        assert(sextet_char(12) == 'M');
    }
    if v == 13 {
        assert(sextet_char(13) == 'N');
    }
    if v == 14 {
        assert(sextet_char(14) == 'O');
    }
    if v == 15 {
        assert(sextet_char(15) == 'P');
    }
    if v == 16 {
        assert(sextet_char(16) == 'Q');
    }
    if v == 17 {
        assert(sextet_char(17) == 'R');
    }
    if v == 18 {
        assert(sextet_char(18) == 'S');
    }
    if v == 19 {
        assert(sextet_char(19) == 'T');
    }
    if v == 20 {
        assert(sextet_char(20) == 'U');
    }
    if v == 21 {
        assert(sextet_char(21) == 'V');
    }
    if v == 22 {
        assert(sextet_char(22) == 'W');
    }
    if v == 23 {
        assert(sextet_char(23) == 'X');
    }
    if v == 24 {
        assert(sextet_char(24) == 'Y');
    }
    if v == 25 {
        assert(sextet_char(25) == 'Z');
    }
    if v == 26 {
        assert(sextet_char(26) == 'a');
    }
    if v == 27 {
        assert(sextet_char(27) == 'b');
    }
    if v == 28 {
        assert(sextet_char(28) == 'c');
    }
    if v == 29 {
        assert(sextet_char(29) == 'd');
    }
    if v == 30 {
        assert(sextet_char(30) == 'e');
    }
    if v == 31 {
        assert(sextet_char(31) == 'f');
    }
}

proof fn high_half(v: nat, a: Seq<char>)
    requires
        32 <= v < 64,
        a[32] == 'g',
        a[33] == 'h',
        a[34] == 'i',
        a[35] == 'j',
        a[36] == 'k',
        a[37] == 'l',
        a[38] == 'm',
        a[39] == 'n',
        a[40] == 'o',
        a[41] == 'p',
        a[42] == 'q',
        a[43] == 'r',
        a[44] == 's',
        a[45] == 't',
        a[46] == 'u',
        a[47] == 'v',
        a[48] == 'w',
        a[49] == 'x',
        a[50] == 'y',
        a[51] == 'z',
        a[52] == '0',
        a[53] == '1',
        a[54] == '2',
        a[55] == '3',
        a[56] == '4',
        a[57] == '5',
        a[58] == '6',
        a[59] == '7',
        a[60] == '8',
        a[61] == '9',
        a[62] == '+',
        a[63] == '/',
    ensures
        sextet_char(v) == a[v as int],
        sextet_value(a[v as int]) == v,
{
    if v == 32 {
        assert(sextet_char(32) == 'g');
    }
    if v == 33 {
        assert(sextet_char(33) == 'h');
    }
    if v == 34 {
        assert(sextet_char(34) == 'i');
    }
    if v == 35 {
        assert(sextet_char(35) == 'j');
    }
    if v == 36 {
        assert(sextet_char(36) == 'k');
    }
    if v == 37 {
        assert(sextet_char(37) == 'l');
    }
    if v == 38 {
        assert(sextet_char(38) == 'm');
    }
    if v == 39 {
        assert(sextet_char(39) == 'n');
    }
    if v == 40 {
        assert(sextet_char(40) == 'o');
    }
    if v == 41 {
        assert(sextet_char(41) == 'p');
    }
    if v == 42 {
        assert(sextet_char(42) == 'q');
    }
    if v == 43 {
        assert(sextet_char(43) == 'r');
    }
    if v == 44 {
        assert(sextet_char(44) == 's');
    }
    if v == 45 {
        assert(sextet_char(45) == 't');
    }
    if v == 46 {
        assert(sextet_char(46) == 'u');
    }
    if v == 47 {
        assert(sextet_char(47) == 'v');
    }
    if v == 48 {
        assert(sextet_char(48) == 'w');
    }
    if v == 49 {
        assert(sextet_char(49) == 'x');
    }
    if v == 50 {
        assert(sextet_char(50) == 'y');
    }
    if v == 51 {
        assert(sextet_char(51) == 'z');
    }
    if v == 52 {
        assert(sextet_char(52) == '0');
    }
    if v == 53 {
        assert(sextet_char(53) == '1');
    }
    if v == 54 {
        assert(sextet_char(54) == '2');
    }
    if v == 55 {
        assert(sextet_char(55) == '3');
    }
    if v == 56 {
        assert(sextet_char(56) == '4');
    }
    if v == 57 {
        assert(sextet_char(57) == '5');
    }
    if v == 58 {
        assert(sextet_char(58) == '6');
    }
    if v == 59 {
        assert(sextet_char(59) == '7');
    }
    if v == 60 {
        assert(sextet_char(60) == '8');
    }
    if v == 61 {
        assert(sextet_char(61) == '9');
    }
    if v == 62 {
        assert(sextet_char(62) == '+');
    }
    if v == 63 {
        assert(sextet_char(63) == '/');
    }
}

/// Three bytes are four characters that hold the same 24 bits; one or two bytes at
/// the end are two or three characters and padding, with zeros for the bits that are
/// missing.
pub proof fn groups_hold_the_same_bits(b: Seq<u8>)
    requires
        1 <= b.len() <= 3,
    ensures
        ({
            let g = group(b);
            let bits = sextet_value(g[0]) * 262144 + sextet_value(g[1]) * 4096;
            &&& g.len() == 4
            &&& b.len() == 3 ==> bits + sextet_value(g[2]) * 64 + sextet_value(g[3]) == b[0] * 65536
                + b[1] * 256 + b[2]
            &&& b.len() == 2 ==> bits + sextet_value(g[2]) * 64 == b[0] * 65536 + b[1] * 256 && g[3]
                == '='
            &&& b.len() == 1 ==> bits == b[0] * 65536 && g[2] == '=' && g[3] == '='
        }),
{
    if b.len() == 3 {
        three_hold(b);
    } else if b.len() == 2 {
        two_hold(b);
    } else {
        one_holds(b);
    }
}

proof fn three_hold(b: Seq<u8>)
    requires
        b.len() == 3,
    ensures
        group(b).len() == 4,
        sextet_value(group(b)[0]) * 262144 + sextet_value(group(b)[1]) * 4096 + sextet_value(
            group(b)[2],
        ) * 64 + sextet_value(group(b)[3]) == b[0] * 65536 + b[1] * 256 + b[2],
{
    reveal(group);
    let v = b[0] as nat * 65536 + b[1] as nat * 256 + b[2] as nat;
    the_alphabet_is_standard(v / 262144);
    the_alphabet_is_standard(v / 4096 % 64);
    the_alphabet_is_standard(v / 64 % 64);
    the_alphabet_is_standard(v % 64);
    bits_add_up(v);
}

proof fn bits_add_up(v: nat)
    ensures
        v / 262144 * 262144 + v / 4096 % 64 * 4096 + v / 64 % 64 * 64 + v % 64 == v,
{
    assert(v / 64 / 64 == v / 4096);
    assert(v / 4096 / 64 == v / 262144);
    assert(v == v / 64 * 64 + v % 64);
    assert(v / 64 == v / 4096 * 64 + v / 64 % 64);
    assert(v / 4096 == v / 262144 * 64 + v / 4096 % 64);
}

proof fn two_hold(b: Seq<u8>)
    requires
        b.len() == 2,
    ensures
        group(b).len() == 4,
        sextet_value(group(b)[0]) * 262144 + sextet_value(group(b)[1]) * 4096 + sextet_value(
            group(b)[2],
        ) * 64 == b[0] * 65536 + b[1] * 256,
        group(b)[3] == '=',
{
    reveal(group);
    let v = b[0] as nat * 1024 + b[1] as nat * 4;
    the_alphabet_is_standard(v / 4096);
    the_alphabet_is_standard(v / 64 % 64);
    the_alphabet_is_standard(v % 64);
    assert(v / 64 / 64 == v / 4096);
    assert(v / 64 == v / 4096 * 64 + v / 64 % 64);
    assert(v == v / 64 * 64 + v % 64);
}

proof fn one_holds(b: Seq<u8>)
    requires
        b.len() == 1,
    ensures
        group(b).len() == 4,
        sextet_value(group(b)[0]) * 262144 + sextet_value(group(b)[1]) * 4096 == b[0] * 65536,
        group(b)[2] == '=',
        group(b)[3] == '=',
{
    reveal(group);
    let v = b[0] as nat * 16;
    the_alphabet_is_standard(v / 64);
    the_alphabet_is_standard(v % 64);
    assert(v == v / 64 * 64 + v % 64);
}

/// Bytes are encoded three by three, from the first on.
pub proof fn groups_follow_each_other(a: Seq<u8>, rest: Seq<u8>)
    requires
        a.len() == 3,
    ensures
        encoded(a + rest) == group(a) + encoded(rest),
        encoded(Seq::empty()) == Seq::<char>::empty(),
{
    let w = a + rest;
    if rest.len() == 0 {
        assert(w =~= a);
        assert(group(a) + encoded(rest) =~= group(a));
    } else {
        assert(w.take(3) =~= a);
        assert(w.skip(3) =~= rest);
    }
}

} // verus!
