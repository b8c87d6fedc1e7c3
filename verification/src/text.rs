//! Texts as sequences of characters: trimming, character classes, and
//! searching for a separator.
use vstd::prelude::*;
use vstd::string::StrSliceExecFns;
use vstd::utf8::*;

verus! {

/// Whether `c` is white space: what `char::is_whitespace` tells of it.
pub uninterp spec fn white_space(c: char) -> bool;

/// Whether `c` is a letter or a number of any script: what
/// `char::is_alphanumeric` tells of it.
pub uninterp spec fn letter_or_number(c: char) -> bool;

/// `char::is_whitespace` judges a character by itself alone: by whether it
/// has the Unicode property `White_Space`.
pub assume_specification[ char::is_whitespace ](c: char) -> (r: bool)
    ensures
        r == white_space(c),
;

/// `char::is_alphanumeric` judges a character by itself alone: by whether it
/// has the Unicode property `Alphabetic` or is of one of the number
/// categories.
pub assume_specification[ char::is_alphanumeric ](c: char) -> (r: bool)
    ensures
        r == letter_or_number(c),
;

/// `std::string::FromUtf8Error`: what `String::from_utf8` gives for bytes
/// that are no UTF-8. Nothing is read from it.
#[verifier::external_type_specification]
#[verifier::external_body]
pub struct ExFromUtf8Error(std::string::FromUtf8Error);

/// `String::from_utf8` succeeds exactly on well-formed UTF-8, and the text it
/// then gives holds the characters that the bytes encode.
pub assume_specification[ String::from_utf8 ](vec: Vec<u8>) -> (r: Result<
    String,
    std::string::FromUtf8Error,
>)
    ensures
        r is Ok <==> valid_utf8(vec@),
        r is Ok ==> r->Ok_0@ == decode_utf8(vec@),
;

/// `String::from` on a `&str` gives an owned text of the same characters.
pub assume_specification<'a>[ <String as From<&'a str>>::from ](s: &str) -> (r: String)
    ensures
        r@ == s@,
;

/// `text` is what `message` is turned into by `Into<String>`. Of a `&str`
/// this is the text of the same characters.
pub open spec fn converts<M: Into<String>>(message: M, text: String) -> bool {
    call_ensures(<M as Into<String>>::into, (message,), text)
}

/// The text whose bytes are `bytes`, each byte read as one character.
pub open spec fn text_of(bytes: Seq<u8>) -> Seq<char> {
    Seq::new(bytes.len(), |i: int| bytes[i] as char)
}

/// A string of bytes below 128 is the UTF-8 form of the text that holds the
/// same bytes as characters.
pub proof fn lemma_ascii_text(bytes: Seq<u8>)
    requires
        forall|i: int| 0 <= i < bytes.len() ==> bytes[i] < 128,
    ensures
        is_ascii_chars(text_of(bytes)),
        encode_utf8(text_of(bytes)) == bytes,
        valid_utf8(bytes),
        decode_utf8(bytes) == text_of(bytes),
{
    let chars = text_of(bytes);
    assert(is_ascii_chars(chars));
    is_ascii_chars_encode_utf8(chars);
    assert(encode_utf8(chars) =~= bytes);
    encode_utf8_valid_utf8(chars);
    encode_utf8_decode_utf8(chars);
}

/// `c` is an ASCII letter or an ASCII digit.
pub open spec fn is_ascii_alphanumeric(c: char) -> bool {
    ('0' <= c <= '9') || ('A' <= c <= 'Z') || ('a' <= c <= 'z')
}

/// Whether `c` is an ASCII letter or an ASCII digit.
pub fn ascii_alphanumeric(c: char) -> (r: bool)
    ensures
        r == is_ascii_alphanumeric(c),
{
    ('0' <= c && c <= '9') || ('A' <= c && c <= 'Z') || ('a' <= c && c <= 'z')
}

/// `s` without the white space it begins with.
pub open spec fn skip_leading(s: Seq<char>) -> Seq<char>
    decreases s.len(),
{
    if s.len() > 0 && white_space(s[0]) {
        skip_leading(s.drop_first())
    } else {
        s
    }
}

/// `s` without the white space it ends with.
pub open spec fn skip_trailing(s: Seq<char>) -> Seq<char>
    decreases s.len(),
{
    if s.len() > 0 && white_space(s.last()) {
        skip_trailing(s.drop_last())
    } else {
        s
    }
}

/// `s` without the white space around it.
pub open spec fn trimmed(s: Seq<char>) -> Seq<char> {
    skip_trailing(skip_leading(s))
}

/// `s` holds nothing but white space.
pub open spec fn is_blank(s: Seq<char>) -> bool {
    forall|i: int| 0 <= i < s.len() ==> white_space(#[trigger] s[i])
}

/// The characters of `s`, in order.
pub fn chars_of(s: &str) -> (v: Vec<char>)
    ensures
        v@ == s@,
{
    let mut v: Vec<char> = Vec::new();
    for c in it: s.chars()
        invariant
            it.seq() == s@,
            v@ == it.seq().take(it.index() as int),
    {
        v.push(c);
        assert(it.seq().take(it.index() + 1) =~= it.seq().take(it.index() as int).push(c));
    }
    assert(s@.take(s@.len() as int) =~= s@);
    v
}

/// Where the text of `chars` starts and ends once the white space around it
/// is left out.
pub fn trim_bounds(chars: &Vec<char>) -> (r: (usize, usize))
    ensures
        r.0 <= r.1 <= chars@.len(),
        chars@.subrange(r.0 as int, r.1 as int) == trimmed(chars@),
        r.0 == r.1 <==> is_blank(chars@),
{
    let n = chars.len();
    let mut start: usize = 0;
    assert(chars@.skip(0) =~= chars@);
    while start < n
        invariant
            n == chars@.len(),
            start <= n,
            skip_leading(chars@) == skip_leading(chars@.skip(start as int)),
            forall|i: int| 0 <= i < start ==> white_space(#[trigger] chars@[i]),
        ensures
            start <= n,
            skip_leading(chars@) == chars@.skip(start as int),
            forall|i: int| 0 <= i < start ==> white_space(#[trigger] chars@[i]),
            start < n ==> !white_space(chars@[start as int]),
        decreases n - start,
    {
        if !chars[start].is_whitespace() {
            break;
        }
        assert(chars@.skip(start as int).drop_first() =~= chars@.skip(start + 1));
        start += 1;
    }
    let ghost rest = chars@.skip(start as int);
    let mut end: usize = n;
    assert(chars@.subrange(start as int, n as int) =~= rest);
    while end > start
        invariant
            n == chars@.len(),
            start <= end <= n,
            skip_trailing(rest) == skip_trailing(chars@.subrange(start as int, end as int)),
            forall|i: int| end <= i < n ==> white_space(#[trigger] chars@[i]),
        ensures
            start <= end <= n,
            skip_trailing(rest) == chars@.subrange(start as int, end as int),
            forall|i: int| end <= i < n ==> white_space(#[trigger] chars@[i]),
            end > start ==> !white_space(chars@[end - 1]),
        decreases end - start,
    {
        if !chars[end - 1].is_whitespace() {
            break;
        }
        assert(chars@.subrange(start as int, end as int).drop_last() =~= chars@.subrange(
            start as int,
            end - 1,
        ));
        end -= 1;
    }
    (start, end)
}

/// `s` without the white space around it.
pub fn trim(s: &str) -> (r: &str)
    ensures
        r@ == trimmed(s@),
{
    let chars = chars_of(s);
    let (start, end) = trim_bounds(&chars);
    s.substring_char(start, end)
}

/// Whether `s` is empty or holds nothing but white space.
pub fn blank(s: &str) -> (r: bool)
    ensures
        r == is_blank(s@),
{
    let chars = chars_of(s);
    let (start, end) = trim_bounds(&chars);
    start == end
}

/// The three characters `://` stand in `s` at place `i`.
pub open spec fn separator_at(s: Seq<char>, i: int) -> bool {
    &&& 0 <= i
    &&& i + 3 <= s.len()
    &&& s[i] == ':'
    &&& s[i + 1] == '/'
    &&& s[i + 2] == '/'
}

/// The first place at or after `from` where `://` stands in `s`, or the
/// length of `s` where there is none.
pub open spec fn next_separator(s: Seq<char>, from: int) -> int
    decreases s.len() - from,
{
    if from >= s.len() {
        s.len() as int
    } else if separator_at(s, from) {
        from
    } else {
        next_separator(s, from + 1)
    }
}

/// What [`next_separator`] finds is the first separator from `from` on.
pub proof fn lemma_next_separator(s: Seq<char>, from: int)
    requires
        0 <= from <= s.len(),
    ensures
        from <= next_separator(s, from) <= s.len(),
        next_separator(s, from) < s.len() ==> separator_at(s, next_separator(s, from)),
        forall|i: int| from <= i < next_separator(s, from) ==> !separator_at(s, i),
    decreases s.len() - from,
{
    if from < s.len() && !separator_at(s, from) {
        lemma_next_separator(s, from + 1);
    }
}

/// The first place at or after `from` where `://` stands in `chars`, or the
/// length of `chars` where there is none.
pub fn find_separator(chars: &Vec<char>, from: usize) -> (r: usize)
    requires
        from <= chars@.len(),
    ensures
        r == next_separator(chars@, from as int),
        from <= r <= chars@.len(),
{
    let n = chars.len();
    let mut i = from;
    while i < n
        invariant
            n == chars@.len(),
            from <= i <= n,
            next_separator(chars@, from as int) == next_separator(chars@, i as int),
        decreases n - i,
    {
        if n - i >= 3 && chars[i] == ':' && chars[i + 1] == '/' && chars[i + 2] == '/' {
            return i;
        }
        i += 1;
    }
    n
}

/// `://` stands in `s` exactly once, and something stands behind it.
pub open spec fn has_single_separator(s: Seq<char>) -> bool {
    let first = next_separator(s, 0);
    first + 3 < s.len() && next_separator(s, first + 3) == s.len()
}

/// Whether `://` stands in `chars` exactly once, with something behind it.
pub fn single_separator(chars: &Vec<char>) -> (r: bool)
    ensures
        r == has_single_separator(chars@),
{
    let first = find_separator(chars, 0);
    chars.len() - first > 3 && find_separator(chars, first + 3) == chars.len()
}

} // verus!
