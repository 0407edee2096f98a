//! Scanning primitives: what the parser asks of a piece of text, as
//! mathematical functions on character sequences, and the `nom` parsers that
//! compute them on string slices.

use vstd::prelude::*;

verus! {

/// Whether `c` is a blank: a space, a tab, a carriage return or a line feed.
pub open spec fn is_blank(c: char) -> bool {
    c == ' ' || c == '\t' || c == '\r' || c == '\n'
}

/// The number of blanks that `s` begins with.
pub open spec fn blank_run(s: Seq<char>) -> nat
    decreases s.len(),
{
    if s.len() > 0 && is_blank(s[0]) {
        1 + blank_run(s.skip(1))
    } else {
        0
    }
}

/// The number of pause markers (`_`) that `s` begins with.
pub open spec fn pause_run(s: Seq<char>) -> nat
    decreases s.len(),
{
    if s.len() > 0 && s[0] == '_' {
        1 + pause_run(s.skip(1))
    } else {
        0
    }
}

/// The number of characters of `s` that stand before the first occurrence of
/// `pat` in it, or `None` where `pat` does not occur in `s`.
pub open spec fn first_occurrence(s: Seq<char>, pat: Seq<char>) -> Option<nat>
    decreases s.len(),
{
    if pat.is_prefix_of(s) {
        Some(0)
    } else if s.len() == 0 {
        None
    } else {
        match first_occurrence(s.skip(1), pat) {
            Some(k) => Some(k + 1),
            None => None,
        }
    }
}

/// A run of blanks is no longer than the text it opens.
pub proof fn lemma_blank_run_bound(s: Seq<char>)
    ensures
        blank_run(s) <= s.len(),
    decreases s.len(),
{
    if s.len() > 0 && is_blank(s[0]) {
        lemma_blank_run_bound(s.skip(1));
    }
}

/// A run of pause markers is no longer than the text it opens.
pub proof fn lemma_pause_run_bound(s: Seq<char>)
    ensures
        pause_run(s) <= s.len(),
    decreases s.len(),
{
    if s.len() > 0 && s[0] == '_' {
        lemma_pause_run_bound(s.skip(1));
    }
}

/// Where `pat` first occurs after `k` characters of `s`, it lies within `s`
/// and opens what follows those `k` characters.
pub proof fn lemma_first_occurrence_bound(s: Seq<char>, pat: Seq<char>)
    ensures
        first_occurrence(s, pat) matches Some(k) ==> k + pat.len() <= s.len() && pat.is_prefix_of(
            s.skip(k as int),
        ),
    decreases s.len(),
{
    if pat.is_prefix_of(s) {
        assert(s.skip(0) =~= s);
    } else if s.len() > 0 {
        lemma_first_occurrence_bound(s.skip(1), pat);
        if let Some(k) = first_occurrence(s.skip(1), pat) {
            assert(s.skip(1).skip(k as int) =~= s.skip(k as int + 1));
        }
    }
}

/// A text begins with a one-character pattern exactly when its first
/// character is that character.
pub proof fn lemma_single_prefix(pat: Seq<char>, c: char, s: Seq<char>)
    requires
        pat.len() == 1,
        pat[0] == c,
    ensures
        pat.is_prefix_of(s) <==> (s.len() > 0 && s[0] == c),
{
    if s.len() > 0 && s[0] == c {
        assert(pat =~= s.subrange(0, 1));
    }
    if pat.is_prefix_of(s) {
        assert(s.subrange(0, 1)[0] == s[0]);
    }
}

/// Whether `c` is anything but a pause marker.
pub(crate) fn ends_pause(c: char) -> (b: bool)
    ensures
        b == (c != '_'),
{
    c != '_'
}

/// `nom::bytes::complete::tag` on string slices: matches `pat` at the start of
/// `input` and returns what follows it, or `None` where `input` does not begin
/// with `pat`.
#[verifier::external_body]
pub(crate) fn tag<'a>(pat: &str, input: &'a str) -> (r: Option<&'a str>)
    ensures
        r is Some == pat@.is_prefix_of(input@),
        r matches Some(rest) ==> rest@ == input@.skip(pat@.len() as int),
{
    let parsed: nom::IResult<&'a str, &'a str> = nom::bytes::complete::tag(pat)(input);
    match parsed {
        Ok((rest, _)) => Some(rest),
        Err(_) => None,
    }
}

/// `nom::bytes::complete::take_until` on string slices: splits `input` before
/// the first occurrence of `pat` and returns what stands from there on and
/// what stood before it, or `None` where `pat` does not occur.
#[verifier::external_body]
pub(crate) fn take_until<'a>(pat: &str, input: &'a str) -> (r: Option<(&'a str, &'a str)>)
    ensures
        r is Some == first_occurrence(input@, pat@) is Some,
        r matches Some((rest, taken)) ==> {
            &&& first_occurrence(input@, pat@) == Some(taken@.len())
            &&& taken@ == input@.take(taken@.len() as int)
            &&& rest@ == input@.skip(taken@.len() as int)
        },
{
    let parsed: nom::IResult<&'a str, &'a str> = nom::bytes::complete::take_until(pat)(input);
    match parsed {
        Ok((rest, taken)) => Some((rest, taken)),
        Err(_) => None,
    }
}

/// `nom::character::complete::multispace0` on string slices: splits `input`
/// after its leading blanks and returns what follows them and the blanks.
/// The parser accepts every string slice, an empty run of blanks included.
#[verifier::external_body]
pub(crate) fn multispace0<'a>(input: &'a str) -> (r: (&'a str, &'a str))
    ensures
        r.1@ == input@.take(blank_run(input@) as int),
        r.0@ == input@.skip(blank_run(input@) as int),
{
    let parsed: nom::IResult<&'a str, &'a str> = nom::character::complete::multispace0(input);
    match parsed {
        Ok((rest, taken)) => (rest, taken),
        Err(_) => (input, ""),
    }
}

/// `nom::bytes::complete::take_till` on string slices, stopping at the first
/// character that is no pause marker: splits `input` after its leading pause
/// markers and returns what follows them and the markers.
/// The parser accepts every string slice, an empty run of markers included.
#[verifier::external_body]
pub(crate) fn take_pause_run<'a>(input: &'a str) -> (r: (&'a str, &'a str))
    ensures
        r.1@ == input@.take(pause_run(input@) as int),
        r.0@ == input@.skip(pause_run(input@) as int),
{
    let parsed: nom::IResult<&'a str, &'a str> = nom::bytes::complete::take_till(
        |c: char| ends_pause(c),
    )(input);
    match parsed {
        Ok((rest, taken)) => (rest, taken),
        Err(_) => (input, ""),
    }
}

/// `nom::character::complete::anychar` on string slices: returns what follows
/// the first character of `input` and that character, or `None` where `input`
/// is empty.
#[verifier::external_body]
pub(crate) fn anychar<'a>(input: &'a str) -> (r: Option<(&'a str, char)>)
    ensures
        r is Some == (input@.len() > 0),
        r matches Some((rest, c)) ==> c == input@[0] && rest@ == input@.skip(1),
{
    let parsed: nom::IResult<&'a str, char> = nom::character::complete::anychar(input);
    match parsed {
        Ok((rest, c)) => Some((rest, c)),
        Err(_) => None,
    }
}

/// `String::push` of std: appends `c` to `s`.
#[verifier::external_body]
pub(crate) fn push_char(s: &mut String, c: char)
    ensures
        final(s)@ == old(s)@.push(c),
{
    s.push(c);
}

/// `==` of std on string slices: whether `a` and `b` hold the same characters.
#[verifier::external_body]
pub(crate) fn same_text(a: &str, b: &str) -> (same: bool)
    ensures
        same == (a@ == b@),
{
    a == b
}

} // verus!
