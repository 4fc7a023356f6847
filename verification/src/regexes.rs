//! Regular expressions: what the `regex` crate finds and replaces, named.

use vstd::prelude::*;

use crate::text::{chars_of, same, span, span_of};

verus! {

/// The matches of a pattern in a text as `regex::Regex::captures_iter` yields
/// them: for each match its groups, group zero the whole match, each with its
/// byte offsets where it took part; `None` for a pattern that
/// `regex::Regex::new` rejects.
pub uninterp spec fn capture_spans(pattern: Seq<char>, text: Seq<char>) -> Option<
    Seq<Seq<Option<(usize, usize)>>>,
>;

/// `regex::Regex::new` and `regex::Regex::captures_iter`: all successive
/// non-overlapping matches of the pattern in the text with the byte offsets of
/// their groups, a function of the two texts alone.
#[verifier::external_body]
pub(crate) fn captures(pattern: &str, text: &str) -> (r: Option<Vec<Vec<Option<(usize, usize)>>>>)
    ensures
        r.deep_view() == capture_spans(pattern@, text@),
{
    let re = regex::Regex::new(pattern).ok()?;
    let spans = re.captures_iter(text).map(|c| c.iter().map(|g| g.map(|m| (m.start(), m.end()))).collect());
    Some(spans.collect())
}

/// The text that `regex::Regex::replace_all` gives; `None` for a pattern that
/// `regex::Regex::new` rejects.
pub uninterp spec fn regex_replaced(pattern: Seq<char>, text: Seq<char>, with: Seq<char>) -> Option<
    Seq<char>,
>;

/// `regex::Regex::replace_all`: the text with every match of the pattern
/// replaced, `$1` and the like in the replacement standing for groups, a
/// function of the three texts alone. An empty replacement only removes: it
/// never lengthens the text, and a text of the same length is the same text.
#[verifier::external_body]
pub(crate) fn replace_all(pattern: &str, text: &str, with: &str) -> (r: Option<String>)
    ensures
        r.deep_view() == regex_replaced(pattern@, text@, with@),
        with@.len() == 0 ==> (r matches Some(t) ==> t@ == text@ || t@.len() < text@.len()),
{
    let re = regex::Regex::new(pattern).ok()?;
    Some(re.replace_all(text, with).into_owned())
}

/// The character has a meaning of its own in a regular expression.
pub open spec fn is_meta(c: char) -> bool {
    c == '\\' || c == '.' || c == '+' || c == '*' || c == '?' || c == '(' || c == ')' || c == '|' || c
        == '[' || c == ']' || c == '{' || c == '}' || c == '^' || c == '$' || c == '#' || c == '&' || c
        == '-' || c == '~'
}

/// The pattern that matches the text literally: a backslash stands before each
/// character that has a meaning of its own.
pub open spec fn escaped(text: Seq<char>) -> Seq<char>
    decreases text.len(),
{
    if text.len() == 0 {
        Seq::empty()
    } else if is_meta(text.last()) {
        escaped(text.drop_last()) + seq!['\\', text.last()]
    } else {
        escaped(text.drop_last()).push(text.last())
    }
}

/// `regex::escape`: the text with a backslash before each regular expression meta
/// character.
#[verifier::external_body]
pub(crate) fn escape(text: &str) -> (r: String)
    ensures
        r@ == escaped(text@),
{
    regex::escape(text)
}

/// The matches of a pattern; a rejected pattern matches nothing.
pub open spec fn matches_of(pattern: Seq<char>, text: Seq<char>) -> Seq<Seq<Option<(usize, usize)>>> {
    match capture_spans(pattern, text) {
        Some(m) => m,
        None => Seq::empty(),
    }
}

/// The text with every match replaced; a rejected pattern replaces nothing.
pub open spec fn replacement_of(pattern: Seq<char>, text: Seq<char>, with: Seq<char>) -> Seq<char> {
    match regex_replaced(pattern, text, with) {
        Some(t) => t,
        None => text,
    }
}

/// The matches of a pattern; a rejected pattern matches nothing.
pub fn find_matches(pattern: &str, text: &str) -> (r: Vec<Vec<Option<(usize, usize)>>>)
    ensures
        r.deep_view() == matches_of(pattern@, text@),
{
    match captures(pattern, text) {
        Some(m) => m,
        None => {
            let none: Vec<Vec<Option<(usize, usize)>>> = Vec::new();
            assert(none.deep_view() =~= Seq::empty());
            none
        },
    }
}

/// The text with every match replaced; a rejected pattern replaces nothing.
pub fn replace_matches(pattern: &str, text: &str, with: &str) -> (r: String)
    ensures
        r@ == replacement_of(pattern@, text@, with@),
        with@.len() == 0 ==> r@ == text@ || r@.len() < text@.len(),
{
    match replace_all(pattern, text, with) {
        Some(t) => t,
        None => text.to_owned(),
    }
}

/// The offsets of group `k` of a match, where it took part.
pub open spec fn group_span(groups: Seq<Option<(usize, usize)>>, k: int) -> Option<(usize, usize)> {
    if 0 <= k < groups.len() {
        groups[k]
    } else {
        None
    }
}

/// The text of group `k` of a match, where it took part.
pub open spec fn group_text(text: Seq<char>, groups: Seq<Option<(usize, usize)>>, k: int) -> Option<
    Seq<char>,
> {
    match group_span(groups, k) {
        Some(g) => Some(span(text, g.0 as int, g.1 as int)),
        None => None,
    }
}

/// The offset at which a match begins; zero where group zero is absent.
pub open spec fn match_start(groups: Seq<Option<(usize, usize)>>) -> int {
    match group_span(groups, 0) {
        Some(g) => g.0 as int,
        None => 0,
    }
}

/// The offset at which a match ends; zero where group zero is absent.
pub open spec fn match_end(groups: Seq<Option<(usize, usize)>>) -> int {
    match group_span(groups, 0) {
        Some(g) => g.1 as int,
        None => 0,
    }
}

/// The offsets of group `k` of a match, where it took part.
pub fn span_at(groups: &Vec<Option<(usize, usize)>>, k: usize) -> (r: Option<(usize, usize)>)
    ensures
        r == group_span(groups.deep_view(), k as int),
{
    if k < groups.len() {
        groups[k]
    } else {
        None
    }
}

/// The text of group `k` of a match, where it took part.
pub fn text_at(
    chars: &Vec<char>,
    groups: &Vec<Option<(usize, usize)>>,
    k: usize,
) -> (r: Option<String>)
    ensures
        r.deep_view() == group_text(chars@, groups.deep_view(), k as int),
{
    match span_at(groups, k) {
        Some(g) => Some(span_of(chars, g.0, g.1)),
        None => None,
    }
}

/// The offset at which a match begins.
pub fn start_at(groups: &Vec<Option<(usize, usize)>>) -> (r: usize)
    ensures
        r == match_start(groups.deep_view()),
{
    match span_at(groups, 0) {
        Some(g) => g.0,
        None => 0,
    }
}

/// The offset at which a match ends.
pub fn end_at(groups: &Vec<Option<(usize, usize)>>) -> (r: usize)
    ensures
        r == match_end(groups.deep_view()),
{
    match span_at(groups, 0) {
        Some(g) => g.1,
        None => 0,
    }
}

/// The text of group `k` of the first match of a pattern.
pub open spec fn first_group(pattern: Seq<char>, text: Seq<char>, k: int) -> Option<Seq<char>> {
    let m = matches_of(pattern, text);
    if m.len() == 0 {
        None
    } else {
        group_text(text, m[0], k)
    }
}

/// The text of group `k` of the first match of a pattern.
pub fn first_match(pattern: &str, text: &str, k: usize) -> (r: Option<String>)
    ensures
        r.deep_view() == first_group(pattern@, text@, k as int),
{
    let m = find_matches(pattern, text);
    if m.len() == 0 {
        return None;
    }
    let r = text_at(&chars_of(text), &m[0], k);
    assert(m.deep_view()[0] == m[0].deep_view());
    r
}

/// Whether a pattern matches somewhere in a text.
pub open spec fn is_matched(pattern: Seq<char>, text: Seq<char>) -> bool {
    matches_of(pattern, text).len() > 0
}

/// Whether a pattern matches somewhere in a text.
pub fn is_match(pattern: &str, text: &str) -> (r: bool)
    ensures
        r == is_matched(pattern@, text@),
{
    find_matches(pattern, text).len() > 0
}

/// The text with the matches of the pattern removed until nothing changes.
pub open spec fn stripped(pattern: Seq<char>, text: Seq<char>) -> Seq<char>
    decreases text.len(),
{
    let next = replacement_of(pattern, text, Seq::empty());
    if next.len() < text.len() {
        stripped(pattern, next)
    } else {
        next
    }
}

/// The text with the matches of the pattern removed until nothing changes.
pub fn strip_matches(pattern: &str, text: &str) -> (r: String)
    ensures
        r@ == stripped(pattern@, text@),
{
    let none = String::new();
    assert(none@ =~= Seq::empty());
    let mut out = text.to_owned();
    loop
        invariant
            none@ == Seq::<char>::empty(),
            stripped(pattern@, text@) == stripped(pattern@, out@),
        decreases out@.len(),
    {
        let next = replace_matches(pattern, out.as_str(), none.as_str());
        if same(next.as_str(), out.as_str()) {
            return next;
        }
        out = next;
    }
}

} // verus!
