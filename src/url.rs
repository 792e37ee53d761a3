//! Percent-encoding of query text.
use vstd::prelude::*;
use vstd::string::*;

use crate::text::push_char;

verus! {

/// Bytes that stand for themselves in a query string: ASCII letters,
/// digits, and `-`, `_`, `.`, `~`.
pub open spec fn unreserved_byte(b: u8) -> bool {
    ||| 65 <= b <= 90
    ||| 97 <= b <= 122
    ||| 48 <= b <= 57
    ||| b == 45
    ||| b == 95
    ||| b == 46
    ||| b == 126
}

/// The upper-case hexadecimal digit of a value below 16.
pub open spec fn hex_char(n: u8) -> char {
    if n < 10 {
        ((n + 48) as u8) as char
    } else {
        ((n + 55) as u8) as char
    }
}

/// How one byte is written: itself when unreserved, else `%` and two
/// upper-case hexadecimal digits.
pub open spec fn encode_byte(b: u8) -> Seq<char> {
    if unreserved_byte(b) {
        seq![b as char]
    } else {
        seq!['%', hex_char(b / 16), hex_char(b % 16)]
    }
}

/// The percent-encoding of a byte sequence, byte by byte.
pub open spec fn url_encoded(bytes: Seq<u8>) -> Seq<char>
    decreases bytes.len(),
{
    if bytes.len() == 0 {
        Seq::empty()
    } else {
        url_encoded(bytes.drop_last()) + encode_byte(bytes.last())
    }
}

fn is_unreserved(b: u8) -> (r: bool)
    ensures
        r == unreserved_byte(b),
{
    (65 <= b && b <= 90) || (97 <= b && b <= 122) || (48 <= b && b <= 57) || b == 45 || b == 95
        || b == 46 || b == 126
}

pub(crate) fn hex_digit(n: u8) -> (c: char)
    requires
        n < 16,
    ensures
        c == hex_char(n),
{
    if n < 10 {
        (n + 48) as char
    } else {
        (n + 55) as char
    }
}

/// Percent-encodes the UTF-8 bytes of `input`: unreserved bytes are kept,
/// every other byte becomes `%XY` with upper-case hexadecimal digits.
pub fn url_encode(input: &str) -> (r: String)
    ensures
        r@ == url_encoded(input.spec_bytes()),
{
    let bytes = input.as_bytes();
    let mut out = String::new();
    let mut i: usize = 0;
    while i < bytes.len()
        invariant
            i <= bytes@.len(),
            bytes@ == input.spec_bytes(),
            out@ == url_encoded(bytes@.take(i as int)),
        decreases bytes@.len() - i,
    {
        let b = bytes[i];
        if is_unreserved(b) {
            push_char(&mut out, b as char);
        } else {
            push_char(&mut out, '%');
            push_char(&mut out, hex_digit(b / 16));
            push_char(&mut out, hex_digit(b % 16));
        }
        proof {
            assert(bytes@.take(i + 1).drop_last() == bytes@.take(i as int));
        }
        i = i + 1;
    }
    proof {
        assert(bytes@.take(i as int) == bytes@);
    }
    out
}

/// The request URL that asks the endpoint to translate `text` (given by
/// its UTF-8 bytes) from language `from` to language `to`.
pub open spec fn request_url_of(text: Seq<u8>, from: Seq<char>, to: Seq<char>) -> Seq<char> {
    "https://translate.googleapis.com/translate_a/single?client=gtx&sl="@ + from + "&tl="@ + to
        + "&dt=t&q="@ + url_encoded(text)
}

/// Builds the request URL for translating `text` from language `from`
/// (`"auto"` to detect it) to language `to`; the text is percent-encoded,
/// the language codes are taken as they are.
pub fn request_url(text: &str, from: &str, to: &str) -> (r: String)
    ensures
        r@ == request_url_of(text.spec_bytes(), from@, to@),
{
    let q = url_encode(text);
    String::from_str("https://translate.googleapis.com/translate_a/single?client=gtx&sl=").concat(
        from,
    ).concat("&tl=").concat(to).concat("&dt=t&q=").concat(q.as_str())
}

} // verus!
