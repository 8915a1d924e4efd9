//! Wire-side validation of user-attached images.
//!
//! An image that the provider would refuse is turned away before it reaches
//! the session log, from where every later request would send it again.
use crate::base64::{encoded, encoded_shape, in_alphabet, padding};
use crate::json::{field, text_at, Json, JsonV};
use crate::measure::{one_place, tenths};
use crate::text::{decimal, decimal_of, has_prefix, same, starts_with};
use vstd::prelude::*;
use vstd::string::*;
use vstd::utf8::*;

verus! {

/// Attachments that one prompt may carry.
pub const MAX_IMAGES_PER_PROMPT: usize = 8;

/// Decoded bytes that one image may hold.
pub const MAX_IMAGE_DECODED_BYTES: usize = 5_242_880;

/// Decoded bytes that the images of one prompt may hold together.
pub const MAX_PROMPT_DECODED_BYTES: usize = 16_777_216;

/// An attached image: its media type and its bytes in base64.
#[derive(Debug, PartialEq, Eq)]
pub struct UserImage {
    pub media_type: String,
    pub data: String,
}

impl View for UserImage {
    type V = (Seq<char>, Seq<char>);

    open spec fn view(&self) -> (Seq<char>, Seq<char>) {
        (self.media_type@, self.data@)
    }
}

/// The views of a list of images.
pub open spec fn pictures(v: Seq<UserImage>) -> Seq<(Seq<char>, Seq<char>)> {
    Seq::new(v.len(), |i: int| v[i]@)
}

/// What `str`'s `Debug` writes: the text in quotation marks, with escapes.
pub uninterp spec fn debug_text(s: Seq<char>) -> Seq<char>;

/// What `char`'s `Debug` writes: the character in apostrophes, escaped where
/// it must be.
pub uninterp spec fn debug_mark(c: char) -> Seq<char>;

/// `str`'s `Debug`, named by [`debug_text`].
#[verifier::external_body]
pub(crate) fn quoted(s: &str) -> (r: String)
    ensures
        r@ == debug_text(s@),
{
    format!("{s:?}")
}

/// `char`'s `Debug`, named by [`debug_mark`].
#[verifier::external_body]
pub(crate) fn quoted_char(c: char) -> (r: String)
    ensures
        r@ == debug_mark(c),
{
    format!("{c:?}")
}

/// How many padding signs `b` ends with.
pub open spec fn trailing_pad(b: Seq<u8>) -> nat
    decreases b.len(),
{
    if b.len() > 0 && b.last() == 61 {
        trailing_pad(b.drop_last()) + 1
    } else {
        0
    }
}

/// Whether `b` is a byte of the base64 alphabet.
pub open spec fn is_body_byte(b: u8) -> bool {
    in_alphabet(b as char)
}

/// The first byte of `b` that is not of the base64 alphabet.
pub open spec fn first_stray(b: Seq<u8>) -> Option<u8>
    decreases b.len(),
{
    if b.len() == 0 {
        None
    } else if !is_body_byte(b[0]) {
        Some(b[0])
    } else {
        first_stray(b.drop_first())
    }
}

/// The decoded size of a well-formed base64 text, or what is wrong with it.
pub open spec fn decoded_size(data: Seq<char>) -> Result<nat, Seq<char>> {
    let b = encode_utf8(data);
    if has_prefix(data, "data:"@) {
        Err("data must be bare base64, not a data: URL"@)
    } else if b.len() == 0 || b.len() % 4 != 0 {
        Err("data must be non-empty base64 with padding (length % 4 == 0)"@)
    } else if trailing_pad(b) > 2 {
        Err("data has more than two '=' padding chars"@)
    } else {
        match first_stray(b.take(b.len() - trailing_pad(b))) {
            Some(bad) => Err(
                "data contains a non-base64 character ("@ + debug_mark(bad as char) + ")"@,
            ),
            None => Ok((b.len() / 4 * 3 - trailing_pad(b)) as nat),
        }
    }
}

fn body_byte(b: u8) -> (r: bool)
    ensures
        r == is_body_byte(b),
{
    crate::text::alnum(b as char) || b == 43 || b == 47
}

/// Decoded size of a well-formed base64 text, or what is wrong with it. Only
/// the shape is looked at; nothing is decoded.
pub fn decoded_len(data: &str) -> (r: Result<usize, String>)
    ensures
        match r {
            Ok(n) => decoded_size(data@) == Ok::<nat, Seq<char>>(n as nat),
            Err(e) => decoded_size(data@) == Err::<nat, Seq<char>>(e@),
        },
        r matches Ok(n) ==> n <= encode_utf8(data@).len(),
{
    if starts_with(data, "data:") {
        return Err("data must be bare base64, not a data: URL".to_owned());
    }
    let b = data.as_bytes();
    let n: usize = b.len();
    if n == 0 || n % 4 != 0 {
        return Err("data must be non-empty base64 with padding (length % 4 == 0)".to_owned());
    }
    let mut end: usize = n;
    assert(b@.take(n as int) == b@);
    while end > 0 && b[end - 1] == 61
        invariant
            n == b.len(),
            0 <= end <= n,
            trailing_pad(b@) == trailing_pad(b@.take(end as int)) + (n - end),
        decreases end,
    {
        assert(b@.take(end as int).drop_last() == b@.take(end - 1));
        end = end - 1;
    }
    let pad: usize = n - end;
    assert(pad == trailing_pad(b@));
    if pad > 2 {
        return Err("data has more than two '=' padding chars".to_owned());
    }
    let ghost body = b@.take(end as int);
    let mut i: usize = 0;
    assert(body.skip(0) == body);
    while i < end
        invariant
            end <= b.len(),
            0 <= i <= end,
            b@ == encode_utf8(data@),
            body == b@.take(end as int),
            first_stray(body) == first_stray(body.skip(i as int)),
            !has_prefix(data@, "data:"@),
            b@.len() != 0 && b@.len() % 4 == 0,
            trailing_pad(b@) == b.len() - end,
            b.len() - end <= 2,
        decreases end - i,
    {
        assert(body.skip(i as int)[0] == b@[i as int]);
        if !body_byte(b[i]) {
            let mut e = "data contains a non-base64 character (".to_owned();
            e.append(quoted_char(b[i] as char).as_str());
            e.append(")");
            return Err(e);
        }
        assert(body.skip(i as int).drop_first() == body.skip(i + 1));
        i = i + 1;
    }
    assert(first_stray(body.skip(i as int)) is None);
    Ok(n / 4 * 3 - pad)
}

/// The media types that a prompt may carry.
pub open spec fn is_media_type(s: Seq<char>) -> bool {
    s == "image/png"@ || s == "image/jpeg"@ || s == "image/gif"@ || s == "image/webp"@
}

/// The start of every message about image `i`.
pub open spec fn image_label(i: nat) -> Seq<char> {
    "images["@ + decimal_of(i) + "]"@
}

/// Image `i` of a prompt: its media type, its data and its decoded size, or
/// what is wrong with it.
pub open spec fn image_at(i: nat, v: JsonV) -> Result<
    (Seq<char>, Seq<char>, nat),
    Seq<char>,
> {
    match text_at(v, "media_type"@) {
        None => Err(image_label(i) + " is missing media_type"@),
        Some(mt) => if !is_media_type(mt) {
            Err(
                image_label(i) + " media_type "@ + debug_text(mt)
                    + " is not one of [\"image/png\", \"image/jpeg\", \"image/gif\", \"image/webp\"]"@,
            )
        } else {
            match text_at(v, "data"@) {
                None => Err(image_label(i) + " is missing data"@),
                Some(data) => match decoded_size(data) {
                    Err(e) => Err(image_label(i) + ": "@ + e),
                    Ok(n) => if n > MAX_IMAGE_DECODED_BYTES {
                        Err(
                            image_label(i) + " is "@ + one_place(n, 1_048_576)
                                + "MB decoded — the per-image cap is 5MB"@,
                        )
                    } else {
                        Ok((mt, data, n))
                    },
                },
            }
        },
    }
}

/// The first `n` images of a prompt with their total decoded size, or the
/// first thing that is wrong.
pub open spec fn images_upto(arr: Seq<JsonV>, n: nat) -> Result<
    (Seq<(Seq<char>, Seq<char>)>, nat),
    Seq<char>,
>
    decreases n,
{
    if n == 0 {
        Ok((Seq::empty(), 0))
    } else {
        match images_upto(arr, (n - 1) as nat) {
            Err(e) => Err(e),
            Ok((got, total)) => match image_at((n - 1) as nat, arr[n - 1]) {
                Err(e) => Err(e),
                Ok((mt, data, size)) => if total + size > MAX_PROMPT_DECODED_BYTES {
                    Err("images total more than the 16MB per-prompt cap"@)
                } else {
                    Ok((got.push((mt, data)), total + size))
                },
            },
        }
    }
}

/// The images of a prompt's parameters, or what is wrong with them.
pub open spec fn images_of(params: JsonV) -> Result<Seq<(Seq<char>, Seq<char>)>, Seq<char>> {
    match field(params, "images"@) {
        None => Ok(Seq::empty()),
        Some(JsonV::Null) => Ok(Seq::empty()),
        Some(JsonV::Arr(arr)) => if arr.len() > MAX_IMAGES_PER_PROMPT {
            Err(decimal_of(arr.len()) + " images exceeds the 8-per-prompt cap"@)
        } else {
            match images_upto(arr, arr.len()) {
                Err(e) => Err(e),
                Ok((got, _)) => Ok(got),
            }
        },
        Some(_) => Err("images must be an array of {media_type, data} objects"@),
    }
}

proof fn first_error_stays(arr: Seq<JsonV>, k: nat, n: nat)
    requires
        k <= n,
        images_upto(arr, k) is Err,
    ensures
        images_upto(arr, n) == images_upto(arr, k),
    decreases n,
{
    if k < n {
        first_error_stays(arr, k, (n - 1) as nat);
    }
}

fn labelled(i: usize, rest: &str) -> (r: String)
    ensures
        r@ == image_label(i as nat) + rest@,
{
    let mut s = "images[".to_owned();
    s.append(decimal(i as u64).as_str());
    s.append("]");
    s.append(rest);
    s
}

fn read_image(i: usize, v: &Json) -> (r: Result<(UserImage, usize), String>)
    ensures
        match r {
            Ok((img, n)) => image_at(i as nat, v@) == Ok::<
                (Seq<char>, Seq<char>, nat),
                Seq<char>,
            >((img@.0, img@.1, n as nat)) && n <= MAX_IMAGE_DECODED_BYTES,
            Err(e) => image_at(i as nat, v@) == Err::<(Seq<char>, Seq<char>, nat), Seq<char>>(e@),
        },
{
    let mt = match v.text_field("media_type") {
        Some(mt) => mt,
        None => {
            return Err(labelled(i, " is missing media_type"));
        },
    };
    if !(same(mt, "image/png") || same(mt, "image/jpeg") || same(mt, "image/gif") || same(
        mt,
        "image/webp",
    )) {
        let mut e = labelled(i, " media_type ");
        e.append(quoted(mt).as_str());
        e.append(
            " is not one of [\"image/png\", \"image/jpeg\", \"image/gif\", \"image/webp\"]",
        );
        return Err(e);
    }
    let data = match v.text_field("data") {
        Some(data) => data,
        None => {
            return Err(labelled(i, " is missing data"));
        },
    };
    match decoded_len(data) {
        Err(e) => {
            let mut m = labelled(i, ": ");
            m.append(e.as_str());
            Err(m)
        },
        Ok(n) => {
            if n > MAX_IMAGE_DECODED_BYTES {
                let mut m = labelled(i, " is ");
                m.append(tenths(n as u64, 1_048_576).as_str());
                m.append("MB decoded — the per-image cap is 5MB");
                Err(m)
            } else {
                Ok((UserImage { media_type: mt.to_owned(), data: data.to_owned() }, n))
            }
        },
    }
}

/// Reads the optional `images` array off a request's parameters. Absent or
/// `null` means none. Every error names what to mend.
pub fn parse_images(params: &Json) -> (r: Result<Vec<UserImage>, String>)
    ensures
        match r {
            Ok(v) => images_of(params@) == Ok::<
                Seq<(Seq<char>, Seq<char>)>,
                Seq<char>,
            >(pictures(v@)),
            Err(e) => images_of(params@) == Err::<Seq<(Seq<char>, Seq<char>)>, Seq<char>>(e@),
        },
{
    let arr = match params.get("images") {
        None => {
            let none: Vec<UserImage> = Vec::new();
            assert(pictures(none@) =~= Seq::empty());
            return Ok(none);
        },
        Some(Json::Null) => {
            let none: Vec<UserImage> = Vec::new();
            assert(pictures(none@) =~= Seq::empty());
            return Ok(none);
        },
        Some(Json::Arr(arr)) => arr,
        Some(_) => {
            return Err("images must be an array of {media_type, data} objects".to_owned());
        },
    };
    let ghost all = crate::json::views(arr@);
    proof {
        let j = Json::Arr(*arr);
        assert(j@->Arr_0 =~= all);
        assert(field(params@, "images"@) == Some(JsonV::Arr(all)));
    }
    if arr.len() > MAX_IMAGES_PER_PROMPT {
        let mut e = decimal(arr.len() as u64);
        e.append(" images exceeds the 8-per-prompt cap");
        return Err(e);
    }
    let mut total: usize = 0;
    let mut out: Vec<UserImage> = Vec::new();
    assert(pictures(out@) =~= Seq::empty());
    let mut i: usize = 0;
    while i < arr.len()
        invariant
            0 <= i <= arr.len(),
            arr.len() <= MAX_IMAGES_PER_PROMPT,
            all == crate::json::views(arr@),
            field(params@, "images"@) == Some(JsonV::Arr(all)),
            total <= MAX_PROMPT_DECODED_BYTES,
            images_upto(all, i as nat) == Ok::<
                (Seq<(Seq<char>, Seq<char>)>, nat),
                Seq<char>,
            >((pictures(out@), total as nat)),
        decreases arr.len() - i,
    {
        assert(all[i as int] == arr@[i as int]@);
        proof {
            if images_upto(all, (i + 1) as nat) is Err {
                first_error_stays(all, (i + 1) as nat, all.len());
            }
        }
        match read_image(i, &arr[i]) {
            Err(e) => {
                return Err(e);
            },
            Ok((img, n)) => {
                total = total + n;
                if total > MAX_PROMPT_DECODED_BYTES {
                    return Err("images total more than the 16MB per-prompt cap".to_owned());
                }
                let ghost before = pictures(out@);
                out.push(img);
                assert(pictures(out@) == before.push(img@));
            },
        }
        i = i + 1;
    }
    Ok(out)
}

/// The images of an accepted prompt: each of an accepted media type and
/// well-formed, within the size of one image, in the order of the request.
pub proof fn accepted_images_are_sound(arr: Seq<JsonV>, n: nat)
    requires
        n <= arr.len(),
        images_upto(arr, n) is Ok,
    ensures
        images_upto(arr, n)->Ok_0.0.len() == n,
        images_upto(arr, n)->Ok_0.1 <= MAX_PROMPT_DECODED_BYTES,
        forall|i: int|
            0 <= i < n ==> {
                let (mt, data) = #[trigger] images_upto(arr, n)->Ok_0.0[i];
                &&& text_at(arr[i], "media_type"@) == Some(mt)
                &&& text_at(arr[i], "data"@) == Some(data)
                &&& is_media_type(mt)
                &&& decoded_size(data) is Ok
                &&& decoded_size(data)->Ok_0 <= MAX_IMAGE_DECODED_BYTES
            },
    decreases n,
{
    if n > 0 {
        let p = (n - 1) as nat;
        accepted_images_are_sound(arr, p);
        let a = images_upto(arr, p)->Ok_0.0;
        let b = images_upto(arr, n)->Ok_0.0;
        assert forall|i: int| 0 <= i < n implies {
            let (mt, data) = #[trigger] b[i];
            &&& text_at(arr[i], "media_type"@) == Some(mt)
            &&& text_at(arr[i], "data"@) == Some(data)
            &&& is_media_type(mt)
            &&& decoded_size(data) is Ok
            &&& decoded_size(data)->Ok_0 <= MAX_IMAGE_DECODED_BYTES
        } by {
            if i < p {
                assert(b[i] == a[i]);
            }
        }
    }
}

proof fn pad_counts(b: Seq<u8>, k: nat)
    requires
        k <= b.len(),
        forall|i: int| b.len() - k <= i < b.len() ==> #[trigger] b[i] == 61,
        k < b.len() ==> b[b.len() - k - 1] != 61,
    ensures
        trailing_pad(b) == k,
    decreases b.len(),
{
    if k > 0 {
        assert(b[b.len() - 1] == 61);
        pad_counts(b.drop_last(), (k - 1) as nat);
    }
}

proof fn no_stray(b: Seq<u8>)
    requires
        forall|i: int| 0 <= i < b.len() ==> is_body_byte(#[trigger] b[i]),
    ensures
        first_stray(b) is None,
    decreases b.len(),
{
    if b.len() > 0 {
        assert(is_body_byte(b[0]));
        let t = b.drop_first();
        assert forall|i: int| 0 <= i < t.len() implies is_body_byte(#[trigger] t[i]) by {
            assert(t[i] == b[i + 1]);
        }
        no_stray(t);
    }
}

/// The base64 text of any bytes but none is well-formed, and its decoded size
/// is their number.
pub proof fn encodings_measure_their_bytes(b: Seq<u8>)
    requires
        b.len() > 0,
    ensures
        decoded_size(encoded(b)) == Ok::<nat, Seq<char>>(b.len()),
{
    encoded_shape(b);
    let e = encoded(b);
    let k = padding(b.len());
    assert(is_ascii_chars(e)) by {
        assert forall|i: int| 0 <= i < e.len() implies 0 <= #[trigger] e[i] as nat <= 127 by {
            if i < e.len() - k {
                assert(in_alphabet(e[i]));
            } else {
                assert(e[i] == '=');
            }
        }
    }
    is_ascii_chars_encode_utf8(e);
    let u = encode_utf8(e);
    assert(u.len() == e.len());
    assert forall|i: int| u.len() - k <= i < u.len() implies #[trigger] u[i] == 61 by {
        assert(e[i] == '=');
    }
    assert(in_alphabet(e[e.len() - k - 1]));
    pad_counts(u, k);
    let body = u.take(u.len() - k);
    assert forall|i: int| 0 <= i < body.len() implies is_body_byte(#[trigger] body[i]) by {
        assert(in_alphabet(e[i]));
    }
    no_stray(body);
    assert(!has_prefix(e, "data:"@)) by {
        reveal_strlit("data:");
        if has_prefix(e, "data:"@) {
            assert(e.take(5)[4] == ':');
            assert(e[4] == ':');
            if 4 < e.len() - k {
                assert(in_alphabet(e[4]));
            } else {
                assert(e[4] == '=');
            }
        }
    }
}

/// The decoded sizes of the first `n` images together.
pub open spec fn total_size(arr: Seq<JsonV>, n: nat) -> nat
    decreases n,
{
    if n == 0 {
        0
    } else {
        total_size(arr, (n - 1) as nat) + (match text_at(arr[n - 1], "data"@) {
            Some(d) => match decoded_size(d) {
                Ok(k) => k,
                Err(_) => 0,
            },
            None => 0,
        })
    }
}

/// A value holds a picture: of one of four types, in base64, at most five
/// mebibytes of it.
pub open spec fn is_picture(v: JsonV) -> bool {
    &&& text_at(v, "media_type"@) matches Some(mt)
    &&& mt == "image/png"@ || mt == "image/jpeg"@ || mt == "image/gif"@ || mt == "image/webp"@
    &&& text_at(v, "data"@) matches Some(d)
    &&& decoded_size(d) matches Ok(k)
    &&& k <= 5_242_880
}

proof fn images_upto_are(arr: Seq<JsonV>, n: nat)
    requires
        n <= arr.len(),
    ensures
        images_upto(arr, n) is Ok <==> (forall|i: int|
            0 <= i < n ==> is_picture(#[trigger] arr[i])) && total_size(arr, n) <= 16_777_216,
        images_upto(arr, n) matches Ok((got, total)) ==> total == total_size(arr, n) && got
            == Seq::new(
            n,
            |i: int| (text_at(arr[i], "media_type"@)->0, text_at(arr[i], "data"@)->0),
        ),
    decreases n,
{
    if n > 0 {
        images_upto_are(arr, (n - 1) as nat);
        let pair = |i: int| (text_at(arr[i], "media_type"@)->0, text_at(arr[i], "data"@)->0);
        if images_upto(arr, n) is Ok {
            assert(image_at((n - 1) as nat, arr[n - 1]) is Ok);
            assert(is_picture(arr[n - 1]));
            assert forall|i: int| 0 <= i < n implies is_picture(#[trigger] arr[i]) by {}
            assert(images_upto(arr, n)->Ok_0.0 =~= Seq::new(n, pair));
        }
        if (forall|i: int| 0 <= i < n ==> is_picture(#[trigger] arr[i])) && total_size(arr, n)
            <= 16_777_216 {
            assert(is_picture(arr[n - 1]));
            assert(images_upto(arr, (n - 1) as nat) is Ok);
        }
    } else {
        assert(images_upto(arr, n)->Ok_0.0 =~= Seq::new(
            0,
            |i: int| (text_at(arr[i], "media_type"@)->0, text_at(arr[i], "data"@)->0),
        ));
    }
}

/// A prompt's images are accepted exactly where there are at most eight, each one
/// is a picture, and they are no more than sixteen mebibytes together; and what is
/// accepted is each one's type and data, in order. Without images there are none.
pub proof fn pictures_that_fit_are_accepted(params: JsonV, arr: Seq<JsonV>)
    ensures
        field(params, "images"@) is None || field(params, "images"@) == Some(JsonV::Null)
            ==> images_of(params) == Ok::<Seq<(Seq<char>, Seq<char>)>, Seq<char>>(Seq::empty()),
        field(params, "images"@) == Some(JsonV::Arr(arr)) ==> {
            &&& images_of(params) is Ok <==> arr.len() <= 8 && (forall|i: int|
                0 <= i < arr.len() ==> is_picture(#[trigger] arr[i])) && total_size(arr, arr.len())
                <= 16_777_216
            &&& images_of(params) matches Ok(got) ==> got == Seq::new(
                arr.len(),
                |i: int| (text_at(arr[i], "media_type"@)->0, text_at(arr[i], "data"@)->0),
            )
        },
        field(params, "images"@) matches Some(v) ==> v is Arr || v is Null || images_of(params)
            is Err,
{
    images_upto_are(arr, arr.len());
}

/// What is wrong with an image is told by its place.
pub proof fn bad_images_are_pointed_out(i: nat, v: JsonV)
    ensures
        image_at(i, v) is Ok <==> is_picture(v),
        image_at(i, v) matches Err(e) ==> ("images["@ + decimal_of(i) + "]"@).is_prefix_of(e),
{
    if let Err(e) = image_at(i, v) {
        let l = image_label(i);
        assert(e.take(l.len() as int) =~= l);
    }
}

/// Data has a size exactly where it is base64: a whole number of groups of four,
/// the alphabet's characters, and one or two marks of padding at the end at most.
/// Its size is three bytes for each group, less the padding.
pub proof fn sizes_are_those_of_base64(data: Seq<char>)
    ensures
        decoded_size(data) matches Ok(n) ==> {
            let b = encode_utf8(data);
            &&& !"data:"@.is_prefix_of(data)
            &&& b.len() > 0 && b.len() % 4 == 0
            &&& exists|k: nat|
                k <= 2 && n + k == b.len() / 4 * 3 && (#[trigger] padded(b, k)) && forall|i: int|
                    0 <= i < b.len() - k ==> in_alphabet(#[trigger] b[i] as char)
        },
{
    if let Ok(n) = decoded_size(data) {
        let b = encode_utf8(data);
        let k = trailing_pad(b);
        pad_is(b);
        strays_none(b.take(b.len() - k));
        assert forall|i: int| 0 <= i < b.len() - k implies in_alphabet(#[trigger] b[i] as char) by {
            let t = b.take(b.len() - k);
            assert(is_body_byte(t[i]));
        }
        assert(padded(b, k));
        let p = "data:"@;
        if p.is_prefix_of(data) {
            assert(data.subrange(0, p.len() as int) =~= p);
            assert(data.take(p.len() as int) =~= p);
        }
    }
}

/// The last `k` bytes are padding marks.
pub open spec fn padded(b: Seq<u8>, k: nat) -> bool {
    k <= b.len() && forall|i: int| b.len() - k <= i < b.len() ==> (#[trigger] b[i]) as char == '='
}

proof fn pad_is(b: Seq<u8>)
    ensures
        padded(b, trailing_pad(b)),
    decreases b.len(),
{
    if b.len() > 0 && b.last() == 61 {
        let t = b.drop_last();
        pad_is(t);
        let k = trailing_pad(b);
        assert forall|i: int| b.len() - k <= i < b.len() implies (#[trigger] b[i]) as char == '=' by {
            if i < t.len() {
                assert(t[i] as char == '=');
            }
        }
    }
}

proof fn strays_none(b: Seq<u8>)
    ensures
        first_stray(b) is None ==> forall|i: int| 0 <= i < b.len() ==> is_body_byte(#[trigger] b[i]),
    decreases b.len(),
{
    if b.len() > 0 && first_stray(b) is None {
        let t = b.drop_first();
        strays_none(t);
        assert forall|i: int| 0 <= i < b.len() implies is_body_byte(#[trigger] b[i]) by {
            if i > 0 {
                assert(is_body_byte(t[i - 1]));
            }
        }
    }
}

} // verus!
