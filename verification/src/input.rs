//! Handling of untrusted text: comparison, sanitisation and the bearer
//! convention for presenting a token.

use vstd::prelude::*;
use validator::ValidateLength;

verus! {

/// Whether the number of characters of `text` respects the bounds given; an
/// absent bound allows everything.
pub open spec fn length_within(text: Seq<char>, min: Option<u64>, max: Option<u64>) -> bool {
    &&& min matches Some(least) ==> least <= text.len()
    &&& max matches Some(most) ==> text.len() <= most
}

/// Calls `validator::ValidateLength::validate_length` on a string, with no
/// exact length asked for. The call counts the characters of the string and
/// compares the count with each bound that is present.
#[verifier::external_body]
fn has_length_within(text: &str, min: Option<u64>, max: Option<u64>) -> (ok: bool)
    ensures
        ok == length_within(text@, min, max),
{
    text.validate_length(min, max, None)
}

/// Whether `char::is_alphanumeric` holds of a character (the Unicode
/// properties Alphabetic and Numeric).
pub uninterp spec fn alphanumeric_char(c: char) -> bool;

/// Whether a character has the Unicode property White_Space: the controls
/// from tab to carriage return, the space, next line, the no-break space,
/// the ogham space mark, the spaces from en quad to hair space, the line and
/// paragraph separators, the narrow no-break space, the medium mathematical
/// space and the ideographic space.
pub open spec fn whitespace_char(c: char) -> bool {
    let code = c as u32;
    ||| 0x0009 <= code <= 0x000D
    ||| code == 0x0020
    ||| code == 0x0085
    ||| code == 0x00A0
    ||| code == 0x1680
    ||| 0x2000 <= code <= 0x200A
    ||| code == 0x2028
    ||| code == 0x2029
    ||| code == 0x202F
    ||| code == 0x205F
    ||| code == 0x3000
}

/// Calls `char::is_alphanumeric`, which looks the character up in fixed
/// Unicode tables.
#[verifier::external_body]
fn is_alphanumeric(c: char) -> (r: bool)
    ensures
        r == alphanumeric_char(c),
{
    c.is_alphanumeric()
}

/// Calls `char::is_whitespace`, which tells whether the character has the
/// Unicode property White_Space.
#[verifier::external_body]
fn is_whitespace(c: char) -> (r: bool)
    ensures
        r == whitespace_char(c),
{
    c.is_whitespace()
}

/// Calls `String::push`, which appends one character.
#[verifier::external_body]
pub(crate) fn push_char(s: &mut String, c: char)
    ensures
        final(s)@ == old(s)@.push(c),
{
    s.push(c)
}

/// Compares two strings without stopping at the first difference: every
/// byte of equally long inputs is looked at, whatever the outcome.
pub fn secure_compare(a: &str, b: &str) -> (same: bool)
    ensures
        same == (a@ == b@),
{
    let x = a.as_bytes();
    let y = b.as_bytes();
    proof {
        vstd::utf8::encode_utf8_decode_utf8(a@);
        vstd::utf8::encode_utf8_decode_utf8(b@);
    }
    if x.len() != y.len() {
        return false;
    }
    let mut diff: u8 = 0;
    let mut i: usize = 0;
    while i < x.len()
        invariant
            i <= x.len(),
            x.len() == y.len(),
            (diff == 0) == (forall|j: int| 0 <= j < i ==> x@[j] == y@[j]),
        decreases x.len() - i,
    {
        let p = x[i];
        let q = y[i];
        assert(((diff | (p ^ q)) == 0) == (diff == 0 && p == q)) by (bit_vector);
        diff = diff | (p ^ q);
        i += 1;
    }
    assert((diff == 0) == (x@ =~= y@));
    diff == 0
}

/// Whether the number of characters of `text` lies between `min` and `max`,
/// both included.
pub fn has_between(text: &str, min: u64, max: u64) -> (ok: bool)
    ensures
        ok == (min <= text@.len() <= max),
{
    has_length_within(text, Some(min), Some(max))
}

/// Whether `text` has at least `min` characters.
pub fn has_at_least(text: &str, min: u64) -> (ok: bool)
    ensures
        ok == (min <= text@.len()),
{
    has_length_within(text, Some(min), None)
}

/// The punctuation that sanitisation lets through, besides letters and
/// digits.
pub open spec fn harmless_punctuation(c: char) -> bool {
    c == '_' || c == '-' || c == '.' || c == '/' || c == ':' || c == '@' || c == ' '
}

/// The characters that sanitisation lets through.
pub open spec fn harmless_char(c: char) -> bool {
    alphanumeric_char(c) || harmless_punctuation(c)
}

/// `s` without its leading whitespace.
pub open spec fn strip_leading(s: Seq<char>) -> Seq<char>
    decreases s.len(),
{
    if s.len() > 0 && whitespace_char(s[0]) {
        strip_leading(s.drop_first())
    } else {
        s
    }
}

/// `s` without its trailing whitespace.
pub open spec fn strip_trailing(s: Seq<char>) -> Seq<char>
    decreases s.len(),
{
    if s.len() > 0 && whitespace_char(s.last()) {
        strip_trailing(s.drop_last())
    } else {
        s
    }
}

/// The test that sanitisation applies to each character.
pub open spec fn harmless() -> spec_fn(char) -> bool {
    |c: char| harmless_char(c)
}

/// What sanitisation makes of a text: the harmless characters, in order,
/// with whitespace removed from both ends.
pub open spec fn sanitized(s: Seq<char>) -> Seq<char> {
    strip_trailing(strip_leading(s.filter(harmless())))
}

/// Whether sanitisation keeps a character, given whether it is a letter or
/// a digit.
pub fn keeps(c: char, alphanumeric: bool) -> (kept: bool)
    ensures
        kept == (alphanumeric || harmless_punctuation(c)),
{
    alphanumeric || c == '_' || c == '-' || c == '.' || c == '/' || c == ':' || c == '@' || c
        == ' '
}

/// Whether a character passes sanitisation.
pub fn is_harmless(c: char) -> (r: bool)
    ensures
        r == harmless_char(c),
{
    keeps(c, is_alphanumeric(c))
}

/// The harmless characters of `input`, in order.
fn keep_harmless(input: &str) -> (kept: Vec<char>)
    ensures
        kept@ == input@.filter(harmless()),
{
    let mut kept: Vec<char> = Vec::new();
    let chars = input.chars();
    proof {
        reveal(Seq::filter);
        vstd::string::axiom_spec_iter(input);
    }
    for c in it: chars
        invariant
            it.seq() == input@,
            kept@ == input@.take(it.index()).filter(harmless()),
    {
        proof {
            reveal(Seq::filter);
            let j = it.index();
            assert(input@.take(j + 1).drop_last() =~= input@.take(j));
            assert(input@.take(j + 1).last() == c);
        }
        if is_harmless(c) {
            kept.push(c);
        }
    }
    proof {
        assert(input@.take(input@.len() as int) =~= input@);
    }
    kept
}

/// Whether trimming removes a character from the ends of a text.
pub fn is_blank(c: char) -> (blank: bool)
    ensures
        blank == whitespace_char(c),
{
    is_whitespace(c)
}

/// The index at which the text begins once leading whitespace is dropped.
fn leading_end(text: &Vec<char>) -> (start: usize)
    ensures
        start <= text.len(),
        strip_leading(text@) == text@.skip(start as int),
{
    let n = text.len();
    let mut start: usize = 0;
    assert(text@.skip(0) =~= text@);
    while start < n && is_blank(text[start])
        invariant
            n == text.len(),
            start <= n,
            strip_leading(text@) == strip_leading(text@.skip(start as int)),
        decreases n - start,
    {
        assert(text@.skip(start as int).drop_first() =~= text@.skip(start + 1));
        start += 1;
    }
    start
}

/// The index at which the part of the text from `start` on ends once
/// trailing whitespace is dropped.
fn trailing_start(text: &Vec<char>, start: usize) -> (end: usize)
    requires
        start <= text.len(),
    ensures
        start <= end <= text.len(),
        strip_trailing(text@.skip(start as int)) == text@.subrange(start as int, end as int),
{
    let n = text.len();
    let ghost body = text@.skip(start as int);
    let mut end: usize = n;
    assert(body.take(n - start) =~= body);
    while end > start && is_blank(text[end - 1])
        invariant
            n == text.len(),
            start <= end <= n,
            body == text@.skip(start as int),
            strip_trailing(body) == strip_trailing(body.take(end - start)),
        decreases end,
    {
        assert(body.take(end - start).last() == text@[end - 1]);
        assert(body.take(end - start).drop_last() =~= body.take(end - start - 1));
        end -= 1;
    }
    assert(body.take(end - start) =~= text@.subrange(start as int, end as int));
    end
}

/// Removes from a text everything but letters, digits and a few harmless
/// punctuation marks, then trims whitespace from both ends.
pub fn sanitize_input(input: &str) -> (clean: String)
    ensures
        clean@ == sanitized(input@),
{
    let kept = keep_harmless(input);
    let start = leading_end(&kept);
    let end = trailing_start(&kept, start);
    let mut clean = String::new();
    let mut i: usize = start;
    assert(kept@.subrange(start as int, start as int) =~= Seq::<char>::empty());
    while i < end
        invariant
            start <= i <= end <= kept.len(),
            clean@ == kept@.subrange(start as int, i as int),
        decreases end - i,
    {
        assert(kept@.subrange(start as int, i + 1) =~= kept@.subrange(start as int, i as int).push(
            kept@[i as int],
        ));
        push_char(&mut clean, kept[i]);
        i += 1;
    }
    clean
}

/// The scheme word, with its separating space, that precedes a token in an
/// authorization header.
pub open spec fn bearer_prefix() -> Seq<char> {
    "Bearer "@
}

/// The token that an authorization header value presents, if it follows
/// the bearer convention: everything after the scheme word.
pub open spec fn presented_token(header: Seq<char>) -> Option<Seq<char>> {
    let prefix = bearer_prefix();
    if header.len() >= prefix.len() && header.take(prefix.len() as int) == prefix {
        Some(header.skip(prefix.len() as int))
    } else {
        None
    }
}

/// Picks the token out of an authorization header value.
pub fn bearer_token(header: &str) -> (token: Option<&str>)
    ensures
        match token {
            Some(t) => presented_token(header@) == Some(t@),
            None => presented_token(header@) is None,
        },
{
    proof {
        reveal_strlit("Bearer ");
    }
    let n = header.unicode_len();
    if n < 7 {
        return None;
    }
    let scheme = header.substring_char(0, 7);
    if secure_compare(scheme, "Bearer ") {
        Some(header.substring_char(7, n))
    } else {
        None
    }
}

} // verus!
