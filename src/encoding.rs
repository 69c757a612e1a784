//! Percent-encoding and the escaping of text for URLs and HTML attributes.
use vstd::prelude::*;
use vstd::string::*;
use vstd::utf8::encode_utf8;
use crate::text::{char_vec, join_spec, push_char, split_on, split_spec};

verus! {

/// The upper-case hexadecimal digit of `n < 16`.
pub open spec fn hex_digit(n: u8) -> char {
    if n < 10 {
        (('0' as u8) + n) as char
    } else {
        (('A' as u8) + n - 10) as char
    }
}

/// `%` followed by the two upper-case hexadecimal digits of `b`.
pub open spec fn escape_byte(b: u8) -> Seq<char> {
    seq!['%', hex_digit(b / 16), hex_digit(b % 16)]
}

/// The bytes of `bs`, each kept as its ASCII character when `keep` says so, else escaped.
pub open spec fn pct_encode_spec(bs: Seq<u8>, keep: spec_fn(u8) -> bool) -> Seq<char>
    decreases bs.len(),
{
    if bs.len() == 0 {
        Seq::<char>::empty()
    } else {
        pct_encode_spec(bs.drop_last(), keep) + if keep(bs.last()) {
            seq![bs.last() as char]
        } else {
            escape_byte(bs.last())
        }
    }
}

/// ASCII letters and digits.
pub open spec fn is_alnum_byte(b: u8) -> bool {
    (0x30 <= b <= 0x39) || (0x41 <= b <= 0x5a) || (0x61 <= b <= 0x7a)
}

/// Printable ASCII other than the space.
pub open spec fn is_url_safe_byte(b: u8) -> bool {
    0x21 <= b <= 0x7e
}

/// Printable ASCII and the space, other than `"`, `&`, `'`, `<` and `>`.
pub open spec fn is_attribute_safe_byte(b: u8) -> bool {
    0x20 <= b <= 0x7e && b != 0x22 && b != 0x26 && b != 0x27 && b != 0x3c && b != 0x3e
}

/// The UTF-8 encoding of `s` with every byte but ASCII letters and digits escaped.
pub open spec fn alnum_encoded(s: Seq<char>) -> Seq<char> {
    pct_encode_spec(encode_utf8(s), |b: u8| is_alnum_byte(b))
}

/// The UTF-8 encoding of `s` with controls, spaces and non-ASCII bytes escaped.
pub open spec fn url_encoded(s: Seq<char>) -> Seq<char> {
    pct_encode_spec(encode_utf8(s), |b: u8| is_url_safe_byte(b))
}

/// The UTF-8 encoding of `s` with controls, non-ASCII bytes and `"`, `&`, `'`, `<`, `>` escaped.
pub open spec fn attribute_encoded(s: Seq<char>) -> Seq<char> {
    pct_encode_spec(encode_utf8(s), |b: u8| is_attribute_safe_byte(b))
}

/// What percent-decoding `s` and reading the bytes as UTF-8, with replacement characters
/// for invalid sequences, gives.
pub uninterp spec fn percent_decoded(s: Seq<char>) -> Seq<char>;

/// Relies on `percent_encoding::utf8_percent_encode` with `NON_ALPHANUMERIC`: every byte of the
/// UTF-8 encoding but ASCII letters and digits becomes `%XX`.
#[verifier::external_body]
fn percent_encode_alnum(s: &str) -> (r: String)
    ensures
        r@ == alnum_encoded(s@),
{
    percent_encoding::utf8_percent_encode(s, percent_encoding::NON_ALPHANUMERIC).to_string()
}

/// Relies on `percent_encoding::percent_encode_byte`: `%` and two upper-case hexadecimal digits.
#[verifier::external_body]
fn percent_byte(b: u8) -> (r: &'static str)
    ensures
        r@ == escape_byte(b),
{
    percent_encoding::percent_encode_byte(b)
}

/// Relies on `percent_encoding::percent_decode_str` followed by `decode_utf8_lossy`: a text
/// without `%` holds no escape and comes back unchanged.
#[verifier::external_body]
fn percent_decode_lossy(s: &str) -> (r: String)
    ensures
        r@ == percent_decoded(s@),
        !s@.contains('%') ==> r@ == s@,
{
    percent_encoding::percent_decode_str(s).decode_utf8_lossy().into_owned()
}

/// Percent-encodes every byte of `s` but ASCII letters and digits.
pub fn encode_alnum(s: &str) -> (r: String)
    ensures
        r@ == alnum_encoded(s@),
{
    percent_encode_alnum(s)
}

/// Decodes the percent escapes of `s`, replacing invalid UTF-8.
pub fn decode_percent(s: &str) -> (r: String)
    ensures
        r@ == percent_decoded(s@),
        !s@.contains('%') ==> r@ == s@,
{
    percent_decode_lossy(s)
}

/// Relies on std's `str::as_bytes`, through vstd's specification of it: the UTF-8 encoding.
fn utf8_bytes(s: &str) -> (r: Vec<u8>)
    ensures
        r@ == encode_utf8(s@),
{
    let b = s.as_bytes();
    let mut out: Vec<u8> = Vec::new();
    let mut i: usize = 0;
    while i < b.len()
        invariant
            i <= b@.len(),
            b@ == encode_utf8(s@),
            out@ == b@.take(i as int),
        decreases b@.len() - i,
    {
        out.push(b[i]);
        assert(out@ =~= b@.take(i as int + 1));
        i = i + 1;
    }
    assert(b@.take(i as int) =~= b@);
    out
}

/// Percent-encodes `url` for a redirect: controls, spaces and non-ASCII bytes are escaped.
pub fn encode_url(url: &str) -> (r: String)
    ensures
        r@ == url_encoded(url@),
{
    let bs = utf8_bytes(url);
    let mut out = String::new();
    let mut i: usize = 0;
    while i < bs.len()
        invariant
            i <= bs@.len(),
            bs@ == encode_utf8(url@),
            out@ == pct_encode_spec(bs@.take(i as int), |b: u8| is_url_safe_byte(b)),
        decreases bs@.len() - i,
    {
        let b = bs[i];
        assert(bs@.take(i as int + 1).drop_last() =~= bs@.take(i as int));
        if 0x21 <= b && b <= 0x7e {
            push_char(&mut out, b as char);
        } else {
            out.append(percent_byte(b));
        }
        i = i + 1;
    }
    assert(bs@.take(i as int) =~= bs@);
    out
}

/// Percent-encodes `url` for an HTML attribute: controls, non-ASCII bytes and
/// `"`, `&`, `'`, `<`, `>` are escaped.
pub fn encode_attribute_url(url: &str) -> (r: String)
    ensures
        r@ == attribute_encoded(url@),
{
    let bs = utf8_bytes(url);
    let mut out = String::new();
    let mut i: usize = 0;
    while i < bs.len()
        invariant
            i <= bs@.len(),
            bs@ == encode_utf8(url@),
            out@ == pct_encode_spec(bs@.take(i as int), |b: u8| is_attribute_safe_byte(b)),
        decreases bs@.len() - i,
    {
        let b = bs[i];
        assert(bs@.take(i as int + 1).drop_last() =~= bs@.take(i as int));
        if 0x20 <= b && b <= 0x7e && b != 0x22 && b != 0x26 && b != 0x27 && b != 0x3c && b != 0x3e {
            push_char(&mut out, b as char);
        } else {
            out.append(percent_byte(b));
        }
        i = i + 1;
    }
    assert(bs@.take(i as int) =~= bs@);
    out
}

/// Each input percent-encoded, joined with `:`.
pub open spec fn inputs_encoded(inputs: Seq<Seq<char>>) -> Seq<char> {
    join_spec(inputs.map_values(|x: Seq<char>| alnum_encoded(x)), ':')
}

/// The inputs that a `:`-separated list of percent-encoded inputs stands for.
pub open spec fn inputs_decoded(s: Seq<char>) -> Seq<Seq<char>> {
    if s.len() == 0 {
        Seq::<Seq<char>>::empty()
    } else {
        split_spec(s, ':').map_values(|x: Seq<char>| percent_decoded(x))
    }
}

/// Encodes user inputs as a `:`-separated list of percent-encoded texts.
pub fn encode_input(inputs: &Vec<String>) -> (r: String)
    ensures
        r@ == inputs_encoded(inputs.deep_view()),
{
    let ghost enc = inputs.deep_view().map_values(|x: Seq<char>| alnum_encoded(x));
    let mut out = String::new();
    let mut i: usize = 0;
    while i < inputs.len()
        invariant
            i <= inputs.len(),
            enc == inputs.deep_view().map_values(|x: Seq<char>| alnum_encoded(x)),
            out@ == join_spec(enc.take(i as int), ':'),
        decreases inputs.len() - i,
    {
        assert(enc.take(i as int + 1).drop_last() =~= enc.take(i as int));
        assert(enc.take(i as int + 1).last() == alnum_encoded(inputs[i as int]@));
        if i > 0 {
            push_char(&mut out, ':');
        }
        let e = encode_alnum(inputs[i].as_str());
        out.append(e.as_str());
        if i == 0 {
            assert(out@ =~= enc.take(1)[0]);
        }
        i = i + 1;
    }
    assert(enc.take(i as int) =~= enc);
    out
}

/// Decodes a `:`-separated list of percent-encoded inputs; an empty text holds none.
pub fn decode_input(s: &str) -> (r: Vec<String>)
    ensures
        r.deep_view() == inputs_decoded(s@),
{
    if s.is_empty() {
        return Vec::new();
    }
    let pieces = split_on(s, ':');
    let ghost want = split_spec(s@, ':').map_values(|x: Seq<char>| percent_decoded(x));
    let mut out: Vec<String> = Vec::new();
    let mut i: usize = 0;
    while i < pieces.len()
        invariant
            i <= pieces.len(),
            pieces.deep_view() == split_spec(s@, ':'),
            want == split_spec(s@, ':').map_values(|x: Seq<char>| percent_decoded(x)),
            out.deep_view() == want.take(i as int),
        decreases pieces.len() - i,
    {
        let d = decode_percent(pieces[i].as_str());
        let ghost before = out.deep_view();
        out.push(d);
        assert(out.deep_view() =~= before.push(d@));
        assert(out.deep_view() =~= want.take(i as int + 1));
        i = i + 1;
    }
    assert(want.take(i as int) =~= want);
    out
}

/// Characters of `s`, with `c` written out as `rep`.
pub open spec fn replace_spec(s: Seq<char>, c: char, rep: Seq<char>) -> Seq<char>
    decreases s.len(),
{
    if s.len() == 0 {
        s
    } else {
        replace_spec(s.drop_last(), c, rep) + if s.last() == c {
            rep
        } else {
            seq![s.last()]
        }
    }
}

/// Writes every `c` of `s` as `rep`.
pub fn replace_char(s: &str, c: char, rep: &str) -> (r: String)
    ensures
        r@ == replace_spec(s@, c, rep@),
{
    let chars = char_vec(s);
    let mut out = String::new();
    let mut i: usize = 0;
    while i < chars.len()
        invariant
            i <= chars.len(),
            chars@ == s@,
            out@ == replace_spec(s@.take(i as int), c, rep@),
        decreases chars.len() - i,
    {
        assert(s@.take(i as int + 1).drop_last() =~= s@.take(i as int));
        if chars[i] == c {
            out.append(rep);
        } else {
            push_char(&mut out, chars[i]);
        }
        i = i + 1;
    }
    assert(s@.take(i as int) =~= s@);
    out
}

/// The five replacements of [`escape_tag`], in their order: quotes, apostrophes, `<`, `>`,
/// and last `&`, which also rewrites the ampersands that the earlier ones wrote.
pub open spec fn escape_tag_spec(s: Seq<char>) -> Seq<char> {
    replace_spec(
        replace_spec(
            replace_spec(replace_spec(replace_spec(s, '"', "&quot;"@), '\'', "&#39;"@), '<', "&lt;"@),
            '>',
            "&gt;"@,
        ),
        '&',
        "&amp;"@,
    )
}

/// Escapes quotes, apostrophes, angle brackets and ampersands, one after the other.
pub fn escape_tag(value: String) -> (r: String)
    ensures
        r@ == escape_tag_spec(value@),
{
    let a = replace_char(value.as_str(), '"', "&quot;");
    let b = replace_char(a.as_str(), '\'', "&#39;");
    let c = replace_char(b.as_str(), '<', "&lt;");
    let d = replace_char(c.as_str(), '>', "&gt;");
    replace_char(d.as_str(), '&', "&amp;")
}

} // verus!
