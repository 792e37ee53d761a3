//! Reading the translated text out of a response body.
use vstd::prelude::*;
use vstd::string::*;

use crate::error::TranslateError;
use crate::text::{chars_of, push_char};
use vstd::utf8::{char_is_scalar, encode_scalar, encode_utf8};

verus! {

/// At most how many bytes of an unreadable body an error message quotes.
pub const EXCERPT_BYTES: usize = 120;

/// Unicode `White_Space`, the characters that trimming removes.
pub open spec fn white_space(c: char) -> bool {
    let u = c as u32;
    ||| 0x9 <= u <= 0xd
    ||| u == 0x20 || u == 0x85 || u == 0xa0 || u == 0x1680
    ||| 0x2000 <= u <= 0x200a
    ||| u == 0x2028 || u == 0x2029 || u == 0x202f || u == 0x205f || u == 0x3000
}

/// Nothing but white space: trimming leaves the empty string.
pub open spec fn blank(s: Seq<char>) -> bool {
    forall|i: int| 0 <= i < s.len() ==> white_space(#[trigger] s[i])
}

/// `pat` occurs in `s` starting at position `i`.
pub open spec fn occurs_at(s: Seq<char>, pat: Seq<char>, i: int) -> bool {
    0 <= i && i + pat.len() <= s.len() && s.subrange(i, i + pat.len()) == pat
}

/// `pat` occurs somewhere in `s`.
pub open spec fn contains(s: Seq<char>, pat: Seq<char>) -> bool {
    exists|i: int| occurs_at(s, pat, i)
}

/// The first position at or after `i` where `pat` occurs in `s`.
pub open spec fn find_from(s: Seq<char>, pat: Seq<char>, i: int) -> Option<int>
    decreases s.len() + 1 - i,
{
    if i < 0 || i + pat.len() > s.len() {
        None
    } else if occurs_at(s, pat, i) {
        Some(i)
    } else {
        find_from(s, pat, i + 1)
    }
}

/// The marker that opens the first translated segment: `[[["`.
pub open spec fn segment_open() -> Seq<char> {
    seq!['[', '[', '[', '"']
}

/// The text between the first `[[["` of a body and the next `"` after it,
/// if both are there.
pub open spec fn quoted_translation(body: Seq<char>) -> Option<Seq<char>> {
    match find_from(body, segment_open(), 0) {
        Some(start) => match find_from(body, seq!['"'], start + 4) {
            Some(end) => Some(body.subrange(start + 4, end)),
            None => None,
        },
        None => None,
    }
}

/// The number of bytes in the UTF-8 encoding of `s`.
pub open spec fn utf8_len(s: Seq<char>) -> int {
    encode_utf8(s).len() as int
}

/// The first `k` characters of `body` are the longest prefix whose UTF-8
/// encoding takes at most `EXCERPT_BYTES` bytes: the part of an unreadable
/// body that an error message quotes.
pub open spec fn excerpt_end(body: Seq<char>, k: int) -> bool {
    &&& 0 <= k <= body.len()
    &&& utf8_len(body.take(k)) <= EXCERPT_BYTES
    &&& (k == body.len() || utf8_len(body.take(k + 1)) > EXCERPT_BYTES)
}

/// The UTF-8 encoding of a concatenation is the concatenation of the
/// encodings.
pub proof fn lemma_encode_utf8_concat(a: Seq<char>, b: Seq<char>)
    ensures
        encode_utf8(a + b) == encode_utf8(a) + encode_utf8(b),
    decreases a.len(),
{
    if a.len() == 0 {
        assert(a + b =~= b);
        assert(encode_utf8(a) =~= Seq::<u8>::empty());
        assert(encode_utf8(a) + encode_utf8(b) =~= encode_utf8(b));
    } else {
        assert((a + b).drop_first() =~= a.drop_first() + b);
        lemma_encode_utf8_concat(a.drop_first(), b);
        assert(encode_utf8(a + b) =~= encode_utf8(a) + encode_utf8(b));
    }
}

/// Taking one more character adds that character's UTF-8 width.
proof fn lemma_utf8_len_take(s: Seq<char>, k: int)
    requires
        0 <= k < s.len(),
    ensures
        utf8_len(s.take(k + 1)) == utf8_len(s.take(k)) + encode_scalar(s[k] as u32).len(),
{
    assert(s.take(k + 1) =~= s.take(k) + seq![s[k]]);
    lemma_encode_utf8_concat(s.take(k), seq![s[k]]);
    assert(seq![s[k]].drop_first() =~= Seq::<char>::empty());
    assert(encode_utf8(Seq::<char>::empty()) =~= Seq::<u8>::empty());
    assert(seq![s[k]][0] == s[k]);
    assert(encode_utf8(seq![s[k]]) =~= encode_scalar(s[k] as u32));
}

/// Prefix byte lengths grow with the prefix, so an excerpt's end is unique.
pub proof fn lemma_excerpt_end_unique(body: Seq<char>, k1: int, k2: int)
    requires
        excerpt_end(body, k1),
        excerpt_end(body, k2),
    ensures
        k1 == k2,
{
    if k1 != k2 {
        let (lo, hi) = if k1 < k2 { (k1, k2) } else { (k2, k1) };
        lemma_utf8_len_monotone(body, lo + 1, hi);
    }
}

proof fn lemma_utf8_len_monotone(s: Seq<char>, i: int, j: int)
    requires
        0 <= i <= j <= s.len(),
    ensures
        utf8_len(s.take(i)) <= utf8_len(s.take(j)),
    decreases j - i,
{
    if i < j {
        lemma_utf8_len_take(s, j - 1);
        lemma_utf8_len_monotone(s, i, j - 1);
    }
}

/// `r` is what reading the translation out of `body` gives: the quoted
/// text when it is not blank, `EmptyResponse` when it is, and a
/// `ParseError` quoting the body's longest prefix of at most `EXCERPT_BYTES`
/// bytes when there is none.
pub open spec fn parse_result(body: Seq<char>, r: Result<String, TranslateError>) -> bool {
    match quoted_translation(body) {
        Some(t) => if blank(t) {
            r is Err && r->Err_0 is EmptyResponse
        } else {
            r is Ok && r->Ok_0@ == t
        },
        None => r is Err && r->Err_0 is ParseError && exists|k: int|
            #![trigger body.take(k)]
            excerpt_end(body, k) && r->Err_0->ParseError_0@ == "Unexpected response format: "@
                + body.take(k),
    }
}

/// What the endpoint sends when it refuses or blocks a request: an HTML
/// page, a `503` anywhere, or exactly `[]`.
pub open spec fn rate_limited(body: Seq<char>) -> bool {
    ||| contains(body, seq!['<', 'h', 't', 'm', 'l', '>'])
    ||| contains(body, seq!['5', '0', '3'])
    ||| body == seq!['[', ']']
}

/// `r` is the outcome of a whole response body: `EmptyResponse` when it
/// is blank, `RateLimited` when it says so, else what parsing gives.
pub open spec fn body_result(body: Seq<char>, r: Result<String, TranslateError>) -> bool {
    if blank(body) {
        r is Err && r->Err_0 is EmptyResponse
    } else if rate_limited(body) {
        r is Err && r->Err_0 is RateLimited
    } else {
        parse_result(body, r)
    }
}

proof fn lemma_find_from(s: Seq<char>, pat: Seq<char>, i: int)
    requires
        0 <= i,
    ensures
        find_from(s, pat, i) matches Some(k) ==> i <= k && occurs_at(s, pat, k),
        find_from(s, pat, i) is None ==> forall|j: int| i <= j ==> !occurs_at(s, pat, j),
    decreases s.len() + 1 - i,
{
    if i + pat.len() <= s.len() && !occurs_at(s, pat, i) {
        lemma_find_from(s, pat, i + 1);
    }
}

fn matches_at(s: &Vec<char>, pat: &Vec<char>, i: usize) -> (r: bool)
    requires
        i + pat.len() <= s.len(),
    ensures
        r == occurs_at(s@, pat@, i as int),
{
    let mut j: usize = 0;
    while j < pat.len()
        invariant
            j <= pat.len(),
            i + pat.len() <= s.len(),
            forall|k: int| 0 <= k < j ==> s@[i + k] == pat@[k],
        decreases pat@.len() - j,
    {
        if s[i + j] != pat[j] {
            assert(s@.subrange(i as int, i + pat@.len())[j as int] != pat@[j as int]);
            return false;
        }
        j = j + 1;
    }
    assert(s@.subrange(i as int, i + pat@.len()) =~= pat@);
    true
}

/// The first position at or after `from` where `pat` occurs in `s`.
fn find(s: &Vec<char>, pat: &Vec<char>, from: usize) -> (r: Option<usize>)
    requires
        from <= s.len(),
        pat.len() > 0,
    ensures
        match r {
            Some(k) => find_from(s@, pat@, from as int) == Some(k as int),
            None => find_from(s@, pat@, from as int) is None,
        },
{
    if pat.len() > s.len() {
        return None;
    }
    let mut i: usize = from;
    while i <= s.len() - pat.len()
        invariant
            from <= i <= s.len(),
            0 < pat.len() <= s.len(),
            find_from(s@, pat@, from as int) == find_from(s@, pat@, i as int),
        decreases s@.len() - i,
    {
        if matches_at(s, pat, i) {
            return Some(i);
        }
        i = i + 1;
    }
    None
}

fn is_white_space(c: char) -> (r: bool)
    ensures
        r == white_space(c),
{
    let u = c as u32;
    (0x9 <= u && u <= 0xd) || u == 0x20 || u == 0x85 || u == 0xa0 || u == 0x1680 || (0x2000 <= u
        && u <= 0x200a) || u == 0x2028 || u == 0x2029 || u == 0x202f || u == 0x205f || u == 0x3000
}

fn is_blank(v: &Vec<char>, lo: usize, hi: usize) -> (r: bool)
    requires
        lo <= hi <= v@.len(),
    ensures
        r == blank(v@.subrange(lo as int, hi as int)),
{
    let mut i: usize = lo;
    while i < hi
        invariant
            lo <= i <= hi <= v@.len(),
            forall|k: int| lo <= k < i ==> white_space(#[trigger] v@[k]),
        decreases hi - i,
    {
        if !is_white_space(v[i]) {
            assert(!white_space(v@.subrange(lo as int, hi as int)[i - lo]));
            return false;
        }
        i = i + 1;
    }
    assert forall|k: int| 0 <= k < hi - lo implies white_space(
        #[trigger] v@.subrange(lo as int, hi as int)[k],
    ) by {
        assert(white_space(v@[lo + k]));
    }
    true
}

/// The number of bytes in the UTF-8 encoding of `c`.
fn utf8_width(c: char) -> (n: usize)
    ensures
        n == encode_scalar(c as u32).len(),
{
    let u = c as u32;
    proof {
        char_is_scalar(c);
    }
    if u <= 0x7f {
        1
    } else if u <= 0x7ff {
        2
    } else if u <= 0xffff {
        3
    } else {
        4
    }
}

/// How many characters of `v` an error message quotes.
fn excerpt_len(v: &Vec<char>) -> (n: usize)
    ensures
        excerpt_end(v@, n as int),
{
    let mut n: usize = 0;
    let mut bytes: usize = 0;
    let mut full = false;
    assert(encode_utf8(v@.take(0)) =~= Seq::<u8>::empty());
    while n < v.len() && !full
        invariant
            n <= v.len(),
            bytes == utf8_len(v@.take(n as int)),
            bytes <= EXCERPT_BYTES,
            full ==> n < v@.len() && utf8_len(v@.take(n + 1)) > EXCERPT_BYTES,
        decreases v@.len() - n + if full { 0int } else { 1int },
    {
        let w = utf8_width(v[n]);
        proof {
            lemma_utf8_len_take(v@, n as int);
        }
        if bytes + w > EXCERPT_BYTES {
            full = true;
        } else {
            bytes = bytes + w;
            n = n + 1;
        }
    }
    n
}

/// Appends the characters `v[lo..hi]` to `out`.
fn push_range(out: &mut String, v: &Vec<char>, lo: usize, hi: usize)
    requires
        lo <= hi <= v@.len(),
    ensures
        final(out)@ == old(out)@ + v@.subrange(lo as int, hi as int),
{
    let ghost start = out@;
    let mut i: usize = lo;
    while i < hi
        invariant
            lo <= i <= hi <= v@.len(),
            out@ == start + v@.subrange(lo as int, i as int),
        decreases hi - i,
    {
        push_char(out, v[i]);
        assert(v@.subrange(lo as int, i + 1) == v@.subrange(lo as int, i as int).push(v@[i as int]));
        i = i + 1;
    }
}

/// Reads the translated text out of a response body: the text between the
/// first `[[["` and the next `"`. Blank text gives `EmptyResponse`; a body
/// without such text gives a `ParseError` that quotes its longest prefix of
/// at most 120 bytes, never cutting a character.
pub fn parse_translation(body: &str) -> (r: Result<String, TranslateError>)
    ensures
        parse_result(body@, r),
{
    let chars = chars_of(body);
    let open: Vec<char> = vec!['[', '[', '[', '"'];
    let quote: Vec<char> = vec!['"'];
    assert(open@ == segment_open());
    assert(quote@ == seq!['"']);
    if let Some(start) = find(&chars, &open, 0) {
        proof {
            lemma_find_from(chars@, open@, 0);
        }
        assert(start + 4 <= chars.len());
        let from = start + 4;
        if let Some(end) = find(&chars, &quote, from) {
            proof {
                lemma_find_from(chars@, quote@, from as int);
            }
            if is_blank(&chars, from, end) {
                return Err(TranslateError::EmptyResponse);
            }
            let mut t = String::new();
            push_range(&mut t, &chars, from, end);
            assert(t@ =~= chars@.subrange(from as int, end as int));
            return Ok(t);
        }
    }
    let n = excerpt_len(&chars);
    let mut m = String::from_str("Unexpected response format: ");
    push_range(&mut m, &chars, 0, n);
    assert(chars@.subrange(0, n as int) =~= body@.take(n as int));
    Err(TranslateError::ParseError(m))
}

fn contains_seq(s: &Vec<char>, pat: &Vec<char>) -> (r: bool)
    requires
        pat.len() > 0,
    ensures
        r == contains(s@, pat@),
{
    proof {
        lemma_find_from(s@, pat@, 0);
    }
    match find(s, pat, 0) {
        Some(_) => true,
        None => false,
    }
}

/// Interprets a whole response body: blank gives `EmptyResponse`, an
/// HTML page, a `503` or exactly `[]` gives `RateLimited`, and anything
/// else is parsed for its translated text.
pub fn translation_from_body(body: &str) -> (r: Result<String, TranslateError>)
    ensures
        body_result(body@, r),
{
    let chars = chars_of(body);
    assert(chars@.subrange(0, chars@.len() as int) =~= body@);
    if is_blank(&chars, 0, chars.len()) {
        return Err(TranslateError::EmptyResponse);
    }
    let html: Vec<char> = vec!['<', 'h', 't', 'm', 'l', '>'];
    let unavailable: Vec<char> = vec!['5', '0', '3'];
    assert(html@ == seq!['<', 'h', 't', 'm', 'l', '>']);
    assert(unavailable@ == seq!['5', '0', '3']);
    let empty_list = chars.len() == 2 && chars[0] == '[' && chars[1] == ']';
    assert(empty_list <==> chars@ =~= seq!['[', ']']);
    if contains_seq(&chars, &html) || contains_seq(&chars, &unavailable) || empty_list {
        return Err(TranslateError::RateLimited);
    }
    parse_translation(body)
}

} // verus!
