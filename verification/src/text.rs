//! Text as sequences of characters: searching, splitting, trimming, joining
//! and ordering, each executable operation stated over a mathematical one.

use vstd::prelude::*;

verus! {

// ---------------------------------------------------------------------------
// Trusted: building a string character by character.
// ---------------------------------------------------------------------------

/// `std::string::String::push`: appends the given character to the end of the
/// string.
pub assume_specification[ String::push ](s: &mut String, c: char)
    ensures
        final(s)@ == old(s)@.push(c),
;

/// The text that `str::to_lowercase` gives: Unicode lower case, with its
/// context rules.
pub uninterp spec fn lowercase(s: Seq<char>) -> Seq<char>;

/// `str::to_lowercase`: the lower case of a text, a function of the text alone.
#[verifier::external_body]
pub(crate) fn to_lowercase(s: &str) -> (r: String)
    ensures
        r@ == lowercase(s@),
{
    s.to_lowercase()
}

/// The characters that `char::to_uppercase` gives for one character.
pub uninterp spec fn char_uppercase(c: char) -> Seq<char>;

/// `char::to_uppercase`: the upper case of one character, as one or more
/// characters, a function of the character alone.
#[verifier::external_body]
pub(crate) fn to_uppercase(c: char) -> (r: String)
    ensures
        r@ == char_uppercase(c),
{
    c.to_uppercase().collect()
}

/// What `char::is_alphanumeric` says of a character: whether it is a letter or
/// a number in Unicode.
pub uninterp spec fn alphanumeric(c: char) -> bool;

/// `char::is_alphanumeric`: whether the character is a Unicode letter or
/// number, a function of the character alone.
#[verifier::external_body]
pub(crate) fn is_alphanumeric(c: char) -> (r: bool)
    ensures
        r == alphanumeric(c),
{
    c.is_alphanumeric()
}

// ---------------------------------------------------------------------------
// Conversions
// ---------------------------------------------------------------------------

/// The characters of a text.
pub fn chars_of(s: &str) -> (r: Vec<char>)
    ensures
        r@ == s@,
{
    let mut v: Vec<char> = Vec::new();
    for c in it: s.chars()
        invariant
            v@ == s@.take(it.index() as int),
            it.seq() == s@,
    {
        v.push(c);
    }
    assert(s@.take(s@.len() as int) =~= s@);
    v
}

/// The text made of the characters `chars[from..to]`.
pub fn text_of(chars: &Vec<char>, from: usize, to: usize) -> (r: String)
    requires
        from <= to <= chars@.len(),
    ensures
        r@ == chars@.subrange(from as int, to as int),
{
    let mut out = String::new();
    let mut i: usize = from;
    while i < to
        invariant
            from <= i <= to <= chars@.len(),
            out@ == chars@.subrange(from as int, i as int),
        decreases to - i,
    {
        out.push(chars[i]);
        i = i + 1;
    }
    out
}

/// The text made of all the characters.
pub fn text_of_all(chars: &Vec<char>) -> (r: String)
    ensures
        r@ == chars@,
{
    let r = text_of(chars, 0, chars.len());
    assert(chars@.subrange(0, chars@.len() as int) =~= chars@);
    r
}

/// Whether two texts hold the same characters.
pub fn same(a: &str, b: &str) -> (r: bool)
    ensures
        r == (a@ == b@),
{
    a.to_owned() == b.to_owned()
}

/// Appends one value to a vector, stated over the deep view.
pub fn add_item<T: DeepView>(v: &mut Vec<T>, x: T)
    ensures
        final(v).deep_view() == old(v).deep_view().push(x.deep_view()),
        final(v)@ == old(v)@.push(x),
{
    v.push(x);
    assert(v.deep_view() =~= old(v).deep_view().push(x.deep_view()));
}

// ---------------------------------------------------------------------------
// Searching
// ---------------------------------------------------------------------------

/// `p` stands in `s` at position `i`.
pub open spec fn is_at(s: Seq<char>, p: Seq<char>, i: int) -> bool {
    0 <= i && i + p.len() <= s.len() && s.subrange(i, i + p.len()) == p
}

/// `p` stands somewhere in `s`.
pub open spec fn has_text(s: Seq<char>, p: Seq<char>) -> bool {
    exists|i: int| is_at(s, p, i)
}

/// `s` begins with `p`.
pub open spec fn begins(s: Seq<char>, p: Seq<char>) -> bool {
    is_at(s, p, 0)
}

/// `s` ends with `p`.
pub open spec fn ends(s: Seq<char>, p: Seq<char>) -> bool {
    is_at(s, p, s.len() - p.len())
}

/// The first position from `i` on at which `p` stands in `s`.
pub open spec fn find_from(s: Seq<char>, p: Seq<char>, i: int) -> Option<int>
    decreases s.len() - i + 1,
{
    if i < 0 || i + p.len() > s.len() {
        None
    } else if is_at(s, p, i) {
        Some(i)
    } else {
        find_from(s, p, i + 1)
    }
}

/// `find_from` finds a position exactly when there is one, and the first.
pub proof fn find_from_is_first(s: Seq<char>, p: Seq<char>, i: int)
    requires
        0 <= i,
    ensures
        find_from(s, p, i) matches Some(k) ==> i <= k && is_at(s, p, k),
        find_from(s, p, i) matches Some(k) ==> forall|j: int| i <= j < k ==> !is_at(s, p, j),
        find_from(s, p, i) is None ==> forall|j: int| i <= j ==> !is_at(s, p, j),
    decreases s.len() - i + 1,
{
    if i + p.len() <= s.len() && !is_at(s, p, i) {
        find_from_is_first(s, p, i + 1);
    }
}

/// Whether `pat` stands in `chars` at position `i`.
pub fn matches_at(chars: &Vec<char>, pat: &Vec<char>, i: usize) -> (r: bool)
    ensures
        r == is_at(chars@, pat@, i as int),
{
    if i > chars.len() || pat.len() > chars.len() - i {
        return false;
    }
    let mut k: usize = 0;
    while k < pat.len()
        invariant
            k <= pat@.len(),
            i + pat.len() <= chars.len(),
            forall|j: int| 0 <= j < k ==> chars@[i + j] == pat@[j],
        decreases pat@.len() - k,
    {
        if chars[i + k] != pat[k] {
            assert(chars@.subrange(i as int, i + pat@.len())[k as int] != pat@[k as int]);
            return false;
        }
        k = k + 1;
    }
    assert(chars@.subrange(i as int, i + pat@.len()) =~= pat@);
    true
}

/// The first position from `from` on at which `pat` stands in `chars`.
pub fn find_chars(chars: &Vec<char>, pat: &Vec<char>, from: usize) -> (r: Option<usize>)
    ensures
        (match r {
            Some(k) => find_from(chars@, pat@, from as int) == Some(k as int),
            None => find_from(chars@, pat@, from as int) is None,
        }),
        r matches Some(k) ==> from <= k && k + pat@.len() <= chars@.len(),
{
    let mut i: usize = from;
    while i <= chars.len() && pat.len() <= chars.len() - i
        invariant
            from <= i,
            i <= chars@.len() + 1 || i == from,
            find_from(chars@, pat@, from as int) == find_from(chars@, pat@, i as int),
        decreases chars@.len() + 1 - i,
    {
        if matches_at(chars, pat, i) {
            return Some(i);
        }
        assert(find_from(chars@, pat@, i as int) == find_from(chars@, pat@, i + 1));
        if i == chars.len() {
            assert(find_from(chars@, pat@, i + 1) is None);
            return None;
        }
        i = i + 1;
    }
    None
}

/// The first position of `p` in `s`, counted in characters.
pub fn find(s: &str, p: &str) -> (r: Option<usize>)
    ensures
        (match r {
            Some(k) => find_from(s@, p@, 0) == Some(k as int),
            None => find_from(s@, p@, 0) is None,
        }),
        r matches Some(k) ==> k + p@.len() <= s@.len() && is_at(s@, p@, k as int),
{
    proof {
        find_from_is_first(s@, p@, 0);
    }
    find_chars(&chars_of(s), &chars_of(p), 0)
}

/// The first position of `p` in `s` from character `from` on.
pub fn find_after(s: &str, p: &str, from: usize) -> (r: Option<usize>)
    ensures
        (match r {
            Some(k) => find_from(s@, p@, from as int) == Some(k as int),
            None => find_from(s@, p@, from as int) is None,
        }),
        r matches Some(k) ==> from <= k && k + p@.len() <= s@.len() && is_at(s@, p@, k as int),
{
    proof {
        find_from_is_first(s@, p@, from as int);
    }
    find_chars(&chars_of(s), &chars_of(p), from)
}

/// Whether `p` stands somewhere in `s`.
pub fn contains(s: &str, p: &str) -> (r: bool)
    ensures
        r == has_text(s@, p@),
{
    proof {
        find_from_is_first(s@, p@, 0);
    }
    find(s, p).is_some()
}

/// Whether `s` begins with `p`.
pub fn starts_with(s: &str, p: &str) -> (r: bool)
    ensures
        r == begins(s@, p@),
{
    matches_at(&chars_of(s), &chars_of(p), 0)
}

/// Whether `s` ends with `p`.
pub fn ends_with(s: &str, p: &str) -> (r: bool)
    ensures
        r == ends(s@, p@),
{
    let a = chars_of(s);
    let b = chars_of(p);
    if b.len() > a.len() {
        return false;
    }
    let at: usize = a.len() - b.len();
    matches_at(&a, &b, at)
}

/// Whether the list holds the text.
pub fn list_has(v: &Vec<String>, s: &str) -> (r: bool)
    ensures
        r == v.deep_view().contains(s@),
{
    let mut i: usize = 0;
    while i < v.len()
        invariant
            i <= v@.len(),
            forall|j: int| 0 <= j < i ==> v.deep_view()[j] != s@,
        decreases v@.len() - i,
    {
        if same(v[i].as_str(), s) {
            assert(v.deep_view()[i as int] == s@);
            return true;
        }
        i = i + 1;
    }
    false
}

// ---------------------------------------------------------------------------
// Cutting and trimming
// ---------------------------------------------------------------------------

/// The characters of `s` up to `i`.
pub open spec fn before(s: Seq<char>, i: int) -> Seq<char> {
    s.subrange(0, i)
}

/// The characters of `s` from `i` on.
pub open spec fn after(s: Seq<char>, i: int) -> Seq<char> {
    s.subrange(i, s.len() as int)
}

/// The part of `s` up to character `i`.
pub fn head_of(s: &str, i: usize) -> (r: &str)
    requires
        i <= s@.len(),
    ensures
        r@ == before(s@, i as int),
{
    s.substring_char(0, i)
}

/// The part of `s` from character `i` on.
pub fn tail_of(s: &str, i: usize) -> (r: &str)
    requires
        i <= s@.len(),
    ensures
        r@ == after(s@, i as int),
{
    s.substring_char(i, s.unicode_len())
}

/// Unicode white space, the characters with the property `White_Space`.
pub open spec fn whitespace(c: char) -> bool {
    let n = c as int;
    ||| 9 <= n <= 13
    ||| n == 0x20
    ||| n == 0x85
    ||| n == 0xA0
    ||| n == 0x1680
    ||| 0x2000 <= n <= 0x200A
    ||| n == 0x2028
    ||| n == 0x2029
    ||| n == 0x202F
    ||| n == 0x205F
    ||| n == 0x3000
}

/// Whether a character is white space.
pub fn is_whitespace(c: char) -> (r: bool)
    ensures
        r == whitespace(c),
{
    let n: u32 = c as u32;
    (9 <= n && n <= 13) || n == 0x20 || n == 0x85 || n == 0xA0 || n == 0x1680 || (0x2000 <= n && n
        <= 0x200A) || n == 0x2028 || n == 0x2029 || n == 0x202F || n == 0x205F || n == 0x3000
}

/// Whether a character is to be trimmed: white space where no set is given,
/// else a member of the set.
pub open spec fn trims(set: Option<Seq<char>>, c: char) -> bool {
    match set {
        None => whitespace(c),
        Some(cs) => cs.contains(c),
    }
}

/// The first position from `i` on whose character is not trimmed.
pub open spec fn lead(s: Seq<char>, set: Option<Seq<char>>, i: int) -> int
    decreases s.len() - i,
{
    if 0 <= i < s.len() && trims(set, s[i]) {
        lead(s, set, i + 1)
    } else {
        i
    }
}

/// The end of `s[..n]` once trailing characters are trimmed.
pub open spec fn tail(s: Seq<char>, set: Option<Seq<char>>, n: int) -> int
    decreases n,
{
    if 0 < n <= s.len() && trims(set, s[n - 1]) {
        tail(s, set, n - 1)
    } else {
        n
    }
}

/// `s` without its leading characters of the set.
pub open spec fn trim_lead(s: Seq<char>, set: Option<Seq<char>>) -> Seq<char> {
    after(s, lead(s, set, 0))
}

/// `s` without its trailing characters of the set.
pub open spec fn trim_tail(s: Seq<char>, set: Option<Seq<char>>) -> Seq<char> {
    before(s, tail(s, set, s.len() as int))
}

/// `s` without leading and trailing white space.
pub open spec fn trimmed(s: Seq<char>) -> Seq<char> {
    trim_tail(trim_lead(s, None), None)
}

/// `s` without leading white space.
pub open spec fn trimmed_start(s: Seq<char>) -> Seq<char> {
    trim_lead(s, None)
}

/// `s` without trailing white space.
pub open spec fn trimmed_end(s: Seq<char>) -> Seq<char> {
    trim_tail(s, None)
}

pub proof fn lead_bounds(s: Seq<char>, set: Option<Seq<char>>, i: int)
    requires
        0 <= i <= s.len(),
    ensures
        i <= lead(s, set, i) <= s.len(),
        lead(s, set, i) < s.len() ==> !trims(set, s[lead(s, set, i)]),
        forall|j: int| i <= j < lead(s, set, i) ==> trims(set, s[j]),
    decreases s.len() - i,
{
    if i < s.len() && trims(set, s[i]) {
        lead_bounds(s, set, i + 1);
    }
}

pub proof fn tail_bounds(s: Seq<char>, set: Option<Seq<char>>, n: int)
    requires
        0 <= n <= s.len(),
    ensures
        0 <= tail(s, set, n) <= n,
        tail(s, set, n) > 0 ==> !trims(set, s[tail(s, set, n) - 1]),
        forall|j: int| tail(s, set, n) <= j < n ==> trims(set, s[j]),
    decreases n,
{
    if 0 < n && trims(set, s[n - 1]) {
        tail_bounds(s, set, n - 1);
    }
}

/// The set of a trimming as a specification value.
pub open spec fn set_view(set: Option<&str>) -> Option<Seq<char>> {
    match set {
        None => None,
        Some(cs) => Some(cs@),
    }
}

/// Whether the characters hold `c`.
pub fn chars_have(v: &Vec<char>, c: char) -> (r: bool)
    ensures
        r == v@.contains(c),
{
    let mut i: usize = 0;
    while i < v.len()
        invariant
            i <= v@.len(),
            forall|j: int| 0 <= j < i ==> v@[j] != c,
        decreases v@.len() - i,
    {
        if v[i] == c {
            return true;
        }
        i = i + 1;
    }
    false
}

fn is_trimmed(set: Option<&str>, c: char) -> (r: bool)
    ensures
        r == trims(set_view(set), c),
{
    match set {
        None => is_whitespace(c),
        Some(cs) => chars_have(&chars_of(cs), c),
    }
}

/// `s` without its leading characters of the set.
pub fn cut_lead<'a>(s: &'a str, set: Option<&str>) -> (r: &'a str)
    ensures
        r@ == trim_lead(s@, set_view(set)),
{
    let chars = chars_of(s);
    let mut i: usize = 0;
    while i < chars.len() && is_trimmed(set, chars[i])
        invariant
            i <= chars@.len(),
            lead(chars@, set_view(set), 0) == lead(chars@, set_view(set), i as int),
        decreases chars@.len() - i,
    {
        i = i + 1;
    }
    tail_of(s, i)
}

/// `s` without its trailing characters of the set.
pub fn cut_tail<'a>(s: &'a str, set: Option<&str>) -> (r: &'a str)
    ensures
        r@ == trim_tail(s@, set_view(set)),
{
    let chars = chars_of(s);
    let mut n: usize = chars.len();
    while n > 0 && is_trimmed(set, chars[n - 1])
        invariant
            n <= chars@.len(),
            tail(chars@, set_view(set), chars@.len() as int) == tail(chars@, set_view(set), n as int),
        decreases n,
    {
        n = n - 1;
    }
    head_of(s, n)
}

/// `s` without leading and trailing white space.
pub fn trim(s: &str) -> (r: &str)
    ensures
        r@ == trimmed(s@),
{
    cut_tail(cut_lead(s, None), None)
}

/// `s` without leading white space.
pub fn trim_start(s: &str) -> (r: &str)
    ensures
        r@ == trimmed_start(s@),
{
    cut_lead(s, None)
}

/// `s` without trailing white space.
pub fn trim_end(s: &str) -> (r: &str)
    ensures
        r@ == trimmed_end(s@),
{
    cut_tail(s, None)
}

/// `s` without the characters of `cs` at both ends.
pub open spec fn trimmed_of(s: Seq<char>, cs: Seq<char>) -> Seq<char> {
    trim_tail(trim_lead(s, Some(cs)), Some(cs))
}

/// `s` without the characters of `cs` at both ends.
pub fn trim_of<'a>(s: &'a str, cs: &str) -> (r: &'a str)
    ensures
        r@ == trimmed_of(s@, cs@),
{
    cut_tail(cut_lead(s, Some(cs)), Some(cs))
}

/// `s` without every leading copy of `p`.
pub open spec fn strip_lead(s: Seq<char>, p: Seq<char>) -> Seq<char>
    decreases s.len(),
{
    if p.len() > 0 && begins(s, p) {
        strip_lead(after(s, p.len() as int), p)
    } else {
        s
    }
}

/// `s` without every leading copy of `p`.
pub fn cut_lead_text<'a>(s: &'a str, p: &str) -> (r: &'a str)
    ensures
        r@ == strip_lead(s@, p@),
{
    let n: usize = p.unicode_len();
    let mut cur: &'a str = s;
    while n > 0 && starts_with(cur, p)
        invariant
            n == p@.len(),
            strip_lead(s@, p@) == strip_lead(cur@, p@),
        decreases cur@.len(),
    {
        cur = tail_of(cur, n);
    }
    cur
}

/// `s` without every trailing copy of `p`.
pub open spec fn strip_tail(s: Seq<char>, p: Seq<char>) -> Seq<char>
    decreases s.len(),
{
    if p.len() > 0 && ends(s, p) {
        strip_tail(before(s, s.len() - p.len()), p)
    } else {
        s
    }
}

/// `s` without every trailing copy of `p`.
pub fn cut_tail_text<'a>(s: &'a str, p: &str) -> (r: &'a str)
    ensures
        r@ == strip_tail(s@, p@),
{
    let n: usize = p.unicode_len();
    let mut cur: &'a str = s;
    while n > 0 && ends_with(cur, p)
        invariant
            n == p@.len(),
            strip_tail(s@, p@) == strip_tail(cur@, p@),
        decreases cur@.len(),
    {
        let keep: usize = cur.unicode_len() - n;
        cur = head_of(cur, keep);
    }
    cur
}

// ---------------------------------------------------------------------------
// Splitting and joining
// ---------------------------------------------------------------------------

/// The pieces of `s[start..]` between the separators, where `s[start..i]` holds
/// none.
pub open spec fn pieces_from(s: Seq<char>, sep: char, start: int, i: int) -> Seq<Seq<char>>
    decreases s.len() - i,
{
    if i < 0 || i >= s.len() {
        seq![s.subrange(start, s.len() as int)]
    } else if s[i] == sep {
        seq![s.subrange(start, i)] + pieces_from(s, sep, i + 1, i + 1)
    } else {
        pieces_from(s, sep, start, i + 1)
    }
}

/// The pieces of `s` between the separators: one more than there are
/// separators.
pub open spec fn pieces(s: Seq<char>, sep: char) -> Seq<Seq<char>> {
    pieces_from(s, sep, 0, 0)
}

/// The pieces of `s` between the separators.
pub fn split(s: &str, sep: char) -> (r: Vec<String>)
    ensures
        r.deep_view() == pieces(s@, sep),
        r@.len() > 0,
{
    let chars = chars_of(s);
    let mut out: Vec<String> = Vec::new();
    let mut start: usize = 0;
    let mut i: usize = 0;
    assert(out.deep_view() + pieces(s@, sep) =~= pieces(s@, sep));
    while i < chars.len()
        invariant
            chars@ == s@,
            start <= i <= chars@.len(),
            out.deep_view() + pieces_from(s@, sep, start as int, i as int) == pieces(s@, sep),
        decreases chars@.len() - i,
    {
        if chars[i] == sep {
            let ghost rest = pieces_from(s@, sep, i + 1, i + 1);
            let ghost done = out.deep_view();
            let piece = text_of(&chars, start, i);
            add_item(&mut out, piece);
            assert(done.push(piece@) + rest =~= done + (seq![piece@] + rest));
            start = i + 1;
        }
        i = i + 1;
    }
    let ghost done = out.deep_view();
    let last = text_of(&chars, start, i);
    add_item(&mut out, last);
    assert(done.push(last@) =~= done + seq![last@]);
    out
}

/// `s` without one trailing carriage return.
pub open spec fn without_return(s: Seq<char>) -> Seq<char> {
    if s.len() > 0 && s.last() == '\r' {
        s.drop_last()
    } else {
        s
    }
}

/// The lines of a text: its parts between line feeds, each but an unterminated
/// last one without a carriage return at its end, and no last line where the
/// text ends in a line feed or is empty.
pub open spec fn line_seq(s: Seq<char>) -> Seq<Seq<char>> {
    let p = pieces(s, '\n');
    let closed = Seq::new((p.len() - 1) as nat, |i: int| without_return(p[i]));
    if p.last().len() == 0 {
        closed
    } else {
        closed.push(p.last())
    }
}

/// The lines of a text.
pub fn lines(s: &str) -> (r: Vec<String>)
    ensures
        r.deep_view() == line_seq(s@),
{
    let parts = split(s, '\n');
    let ghost p = parts.deep_view();
    let mut out: Vec<String> = Vec::new();
    let mut i: usize = 0;
    while i < parts.len() - 1
        invariant
            p == parts.deep_view(),
            i < parts@.len(),
            out.deep_view() == Seq::new(i as nat, |j: int| without_return(p[j])),
        decreases parts@.len() - i,
    {
        let chars = chars_of(parts[i].as_str());
        let n: usize = chars.len();
        let line = if n > 0 && chars[n - 1] == '\r' {
            text_of(&chars, 0, n - 1)
        } else {
            text_of(&chars, 0, n)
        };
        assert(line@ =~= without_return(p[i as int]));
        add_item(&mut out, line);
        assert(out.deep_view() =~= Seq::new((i + 1) as nat, |j: int| without_return(p[j])));
        i = i + 1;
    }
    if parts[i].as_str().unicode_len() > 0 {
        add_item(&mut out, parts[i].clone());
    }
    out
}

/// The tokens of `s[start..]` between characters of the set (white space where
/// none is given), where `s[start..i]` holds none of them.
pub open spec fn tokens_from(s: Seq<char>, set: Option<Seq<char>>, start: int, i: int) -> Seq<Seq<char>>
    decreases s.len() - i,
{
    if i < 0 || i >= s.len() {
        if start < i {
            seq![s.subrange(start, i)]
        } else {
            Seq::empty()
        }
    } else if trims(set, s[i]) {
        if start < i {
            seq![s.subrange(start, i)] + tokens_from(s, set, i + 1, i + 1)
        } else {
            tokens_from(s, set, i + 1, i + 1)
        }
    } else {
        tokens_from(s, set, start, i + 1)
    }
}

/// The longest runs of characters other than white space, in order.
pub open spec fn word_seq(s: Seq<char>) -> Seq<Seq<char>> {
    tokens_from(s, None, 0, 0)
}

/// The longest runs of characters outside the set, in order.
pub open spec fn tokens_of(s: Seq<char>, cs: Seq<char>) -> Seq<Seq<char>> {
    tokens_from(s, Some(cs), 0, 0)
}

fn split_tokens(s: &str, set: Option<&str>) -> (r: Vec<String>)
    ensures
        r.deep_view() == tokens_from(s@, set_view(set), 0, 0),
{
    let ghost cs = set_view(set);
    let chars = chars_of(s);
    let mut out: Vec<String> = Vec::new();
    let mut start: usize = 0;
    let mut i: usize = 0;
    assert(out.deep_view() + tokens_from(s@, cs, 0, 0) =~= tokens_from(s@, cs, 0, 0));
    while i < chars.len()
        invariant
            chars@ == s@,
            cs == set_view(set),
            start <= i <= chars@.len(),
            out.deep_view() + tokens_from(s@, cs, start as int, i as int) == tokens_from(
                s@,
                cs,
                0,
                0,
            ),
        decreases chars@.len() - i,
    {
        if is_trimmed(set, chars[i]) {
            if start < i {
                let ghost rest = tokens_from(s@, cs, i + 1, i + 1);
                let ghost done = out.deep_view();
                let word = text_of(&chars, start, i);
                add_item(&mut out, word);
                assert(done.push(word@) + rest =~= done + (seq![word@] + rest));
            }
            start = i + 1;
        }
        i = i + 1;
    }
    let ghost done = out.deep_view();
    if start < i {
        let word = text_of(&chars, start, i);
        add_item(&mut out, word);
        assert(done.push(word@) =~= done + seq![word@]);
    } else {
        assert(done + Seq::<Seq<char>>::empty() =~= done);
    }
    out
}

/// The words of a text.
pub fn words(s: &str) -> (r: Vec<String>)
    ensures
        r.deep_view() == word_seq(s@),
{
    split_tokens(s, None)
}

/// The tokens of a text between characters of the set.
pub fn tokens(s: &str, cs: &str) -> (r: Vec<String>)
    ensures
        r.deep_view() == tokens_of(s@, cs@),
{
    split_tokens(s, Some(cs))
}

/// The first `n` parts joined by `sep`.
pub open spec fn joined_upto(parts: Seq<Seq<char>>, sep: Seq<char>, n: int) -> Seq<char>
    decreases n,
{
    if n <= 0 {
        Seq::empty()
    } else if n == 1 {
        parts[0]
    } else {
        joined_upto(parts, sep, n - 1) + sep + parts[n - 1]
    }
}

/// The parts joined by `sep`.
pub open spec fn joined(parts: Seq<Seq<char>>, sep: Seq<char>) -> Seq<char> {
    joined_upto(parts, sep, parts.len() as int)
}

/// The parts joined by `sep`.
pub fn join(parts: &Vec<String>, sep: &str) -> (r: String)
    ensures
        r@ == joined(parts.deep_view(), sep@),
{
    if parts.len() == 0 {
        return String::new();
    }
    let mut out = parts[0].clone();
    let mut i: usize = 1;
    while i < parts.len()
        invariant
            1 <= i <= parts@.len(),
            out@ == joined_upto(parts.deep_view(), sep@, i as int),
        decreases parts@.len() - i,
    {
        out.append(sep);
        out.append(parts[i].as_str());
        i = i + 1;
    }
    out
}

/// `s[i..]` with each occurrence of `from`, taken from the left, replaced.
pub open spec fn replaced_from(s: Seq<char>, from: Seq<char>, to: Seq<char>, i: int) -> Seq<char>
    decreases s.len() - i,
{
    if i < 0 || i >= s.len() || from.len() == 0 {
        Seq::empty()
    } else if is_at(s, from, i) {
        to + replaced_from(s, from, to, i + from.len())
    } else {
        seq![s[i]] + replaced_from(s, from, to, i + 1)
    }
}

/// `s` with each occurrence of `from` replaced by `to`.
pub open spec fn replaced(s: Seq<char>, from: Seq<char>, to: Seq<char>) -> Seq<char> {
    replaced_from(s, from, to, 0)
}

/// `s` with each occurrence of `from` replaced by `to`.
pub fn replace(s: &str, from: &str, to: &str) -> (r: String)
    requires
        from@.len() > 0,
    ensures
        r@ == replaced(s@, from@, to@),
{
    let chars = chars_of(s);
    let pat = chars_of(from);
    let mut out = String::new();
    let mut i: usize = 0;
    assert(out@ + replaced(s@, from@, to@) =~= replaced(s@, from@, to@));
    while i < chars.len()
        invariant
            chars@ == s@,
            pat@ == from@,
            pat@.len() > 0,
            i <= chars@.len(),
            out@ + replaced_from(s@, from@, to@, i as int) == replaced(s@, from@, to@),
        decreases chars@.len() - i,
    {
        let ghost done = out@;
        if matches_at(&chars, &pat, i) {
            out.append(to);
            assert((done + to@) + replaced_from(s@, from@, to@, i + from@.len()) =~= done + (to@
                + replaced_from(s@, from@, to@, i + from@.len())));
            i = i + pat.len();
        } else {
            out.push(chars[i]);
            assert(done.push(s@[i as int]) + replaced_from(s@, from@, to@, i + 1) =~= done + (seq![
                s@[i as int],
            ] + replaced_from(s@, from@, to@, i + 1)));
            i = i + 1;
        }
    }
    assert(out@ + Seq::<char>::empty() =~= out@);
    out
}

// ---------------------------------------------------------------------------
// Ordering
// ---------------------------------------------------------------------------

/// `a` stands before `b` in dictionary order of code points.
pub open spec fn less(a: Seq<char>, b: Seq<char>) -> bool
    decreases a.len(),
{
    if b.len() == 0 {
        false
    } else if a.len() == 0 {
        true
    } else if a[0] == b[0] {
        less(a.drop_first(), b.drop_first())
    } else {
        (a[0] as int) < (b[0] as int)
    }
}

/// The code point of a character.
pub fn char_number(c: char) -> (r: u32)
    ensures
        r == c as int,
{
    c as u32
}

/// Whether `a` stands before `b`.
pub fn is_less(a: &str, b: &str) -> (r: bool)
    ensures
        r == less(a@, b@),
{
    let x = chars_of(a);
    let y = chars_of(b);
    let mut i: usize = 0;
    assert(x@.skip(0) =~= x@);
    assert(y@.skip(0) =~= y@);
    while i < x.len() && i < y.len()
        invariant
            x@ == a@,
            y@ == b@,
            i <= x@.len(),
            i <= y@.len(),
            less(a@, b@) == less(x@.skip(i as int), y@.skip(i as int)),
        decreases x@.len() - i,
    {
        let c: char = x[i];
        let d: char = y[i];
        if c != d {
            return char_number(c) < char_number(d);
        }
        assert(x@.skip(i as int).drop_first() =~= x@.skip(i + 1));
        assert(y@.skip(i as int).drop_first() =~= y@.skip(i + 1));
        i = i + 1;
    }
    i < y.len()
}

pub proof fn less_irreflexive(a: Seq<char>)
    ensures
        !less(a, a),
    decreases a.len(),
{
    if a.len() > 0 {
        less_irreflexive(a.drop_first());
    }
}

pub proof fn less_transitive(a: Seq<char>, b: Seq<char>, c: Seq<char>)
    requires
        less(a, b),
        less(b, c),
    ensures
        less(a, c),
    decreases a.len(),
{
    if a.len() > 0 && a[0] == b[0] && b[0] == c[0] {
        less_transitive(a.drop_first(), b.drop_first(), c.drop_first());
    }
}

pub proof fn less_total(a: Seq<char>, b: Seq<char>)
    ensures
        less(a, b) || less(b, a) || a == b,
    decreases a.len(),
{
    if a.len() > 0 && b.len() > 0 && a[0] == b[0] {
        less_total(a.drop_first(), b.drop_first());
        if a.drop_first() == b.drop_first() {
            assert(a =~= seq![a[0]] + a.drop_first());
            assert(b =~= seq![b[0]] + b.drop_first());
        }
    } else if a.len() == 0 && b.len() == 0 {
        assert(a =~= b);
    }
}

/// The position of `x` in a sorted list: behind every element that does not
/// stand after it.
pub open spec fn slot(s: Seq<Seq<char>>, x: Seq<char>, n: int) -> int
    decreases n,
{
    if n > 0 && less(x, s[n - 1]) {
        slot(s, x, n - 1)
    } else {
        n
    }
}

/// The list with `x` put at its place.
pub open spec fn with_sorted(s: Seq<Seq<char>>, x: Seq<char>) -> Seq<Seq<char>> {
    s.insert(slot(s, x, s.len() as int), x)
}

/// The first `n` texts in dictionary order, equal ones kept.
pub open spec fn sorted_upto(s: Seq<Seq<char>>, n: int) -> Seq<Seq<char>>
    decreases n,
{
    if n <= 0 {
        Seq::empty()
    } else {
        with_sorted(sorted_upto(s, n - 1), s[n - 1])
    }
}

/// The texts in dictionary order, equal ones kept.
pub open spec fn sorted(s: Seq<Seq<char>>) -> Seq<Seq<char>> {
    sorted_upto(s, s.len() as int)
}

/// Every text stands at or after the ones before it.
pub open spec fn in_order(s: Seq<Seq<char>>) -> bool {
    forall|i: int, j: int| 0 <= i < j < s.len() ==> !less(#[trigger] s[j], #[trigger] s[i])
}

proof fn slot_bounds(s: Seq<Seq<char>>, x: Seq<char>, n: int)
    requires
        0 <= n <= s.len(),
    ensures
        0 <= slot(s, x, n) <= n,
        slot(s, x, n) > 0 ==> !less(x, s[slot(s, x, n) - 1]),
        forall|j: int| slot(s, x, n) <= j < n ==> less(x, #[trigger] s[j]),
    decreases n,
{
    if n > 0 && less(x, s[n - 1]) {
        slot_bounds(s, x, n - 1);
    }
}

/// Inserts a text at its place in a list.
pub fn insert_sorted(v: &mut Vec<String>, x: String)
    ensures
        final(v).deep_view() == with_sorted(old(v).deep_view(), x@),
{
    let mut n: usize = v.len();
    while n > 0 && is_less(x.as_str(), v[n - 1].as_str())
        invariant
            n <= v@.len(),
            slot(v.deep_view(), x@, v@.len() as int) == slot(v.deep_view(), x@, n as int),
        decreases n,
    {
        n = n - 1;
    }
    let ghost before = v.deep_view();
    v.insert(n, x);
    assert(v.deep_view() =~= before.insert(n as int, x@));
}

/// The texts in dictionary order, equal ones kept.
pub fn sort(v: &Vec<String>) -> (r: Vec<String>)
    ensures
        r.deep_view() == sorted(v.deep_view()),
{
    let mut out: Vec<String> = Vec::new();
    let mut i: usize = 0;
    while i < v.len()
        invariant
            i <= v@.len(),
            out.deep_view() == sorted_upto(v.deep_view(), i as int),
        decreases v@.len() - i,
    {
        insert_sorted(&mut out, v[i].clone());
        i = i + 1;
    }
    out
}

proof fn sorted_upto_is_sorted(s: Seq<Seq<char>>, n: int)
    requires
        0 <= n <= s.len(),
    ensures
        in_order(sorted_upto(s, n)),
        sorted_upto(s, n).to_multiset() == s.take(n).to_multiset(),
        sorted_upto(s, n).len() == n,
    decreases n,
{
    broadcast use vstd::seq_lib::group_to_multiset_ensures;

    if n > 0 {
        let t = sorted_upto(s, n - 1);
        let x = s[n - 1];
        sorted_upto_is_sorted(s, n - 1);
        slot_bounds(t, x, t.len() as int);
        let k = slot(t, x, t.len() as int);
        let r = t.insert(k, x);
        t.insert_ensures(k, x);
        assert forall|i: int, j: int| 0 <= i < j < r.len() implies !less(#[trigger] r[j], #[trigger] r[i]) by {
            if i < k && j == k {
                if less(x, t[i]) && i < k - 1 {
                    assert(!less(t[k - 1], t[i]));
                    less_total(t[k - 1], t[i]);
                    if less(t[i], t[k - 1]) {
                        less_transitive(x, t[i], t[k - 1]);
                    }
                }
            } else if i == k {
                if less(t[j - 1], x) {
                    less_transitive(t[j - 1], x, t[j - 1]);
                    less_irreflexive(t[j - 1]);
                }
            } else {
                let a = if i < k { i } else { i - 1 };
                let b = if j < k { j } else { j - 1 };
                assert(!less(t[b], t[a]));
            }
        }
        assert(s.take(n) =~= s.take(n - 1).push(x));
    } else {
        assert(s.take(0) =~= Seq::empty());
    }
}

/// Sorting orders a list and keeps its texts, each as often as it stood there.
pub proof fn sorted_is_ordered_permutation(s: Seq<Seq<char>>)
    ensures
        in_order(sorted(s)),
        sorted(s).to_multiset() == s.to_multiset(),
        sorted(s).len() == s.len(),
{
    sorted_upto_is_sorted(s, s.len() as int);
    assert(s.take(s.len() as int) =~= s);
}

// ---------------------------------------------------------------------------
// From the right
// ---------------------------------------------------------------------------

/// The last position up to `i` at which `p` stands in `s`.
pub open spec fn last_from(s: Seq<char>, p: Seq<char>, i: int) -> Option<int>
    decreases i + 1,
{
    if i < 0 {
        None
    } else if is_at(s, p, i) {
        Some(i)
    } else {
        last_from(s, p, i - 1)
    }
}

/// The last position of `p` in `s`.
pub open spec fn find_last(s: Seq<char>, p: Seq<char>) -> Option<int> {
    last_from(s, p, s.len() - p.len())
}

/// What stands behind the last `p` in `s`, or all of `s` where there is none.
pub open spec fn after_last(s: Seq<char>, p: Seq<char>) -> Seq<char> {
    match find_last(s, p) {
        Some(k) => after(s, k + p.len()),
        None => s,
    }
}

/// The last position of `p` in `s`, counted in characters.
pub fn rfind(s: &str, p: &str) -> (r: Option<usize>)
    ensures
        (match r {
            Some(k) => find_last(s@, p@) == Some(k as int),
            None => find_last(s@, p@) is None,
        }),
        r matches Some(k) ==> k + p@.len() <= s@.len(),
{
    let chars = chars_of(s);
    let pat = chars_of(p);
    if pat.len() > chars.len() {
        return None;
    }
    let mut i: usize = chars.len() - pat.len();
    loop
        invariant
            chars@ == s@,
            pat@ == p@,
            i + p@.len() <= s@.len(),
            find_last(s@, p@) == last_from(s@, p@, i as int),
        decreases i,
    {
        if matches_at(&chars, &pat, i) {
            return Some(i);
        }
        if i == 0 {
            assert(last_from(s@, p@, -1) is None);
            return None;
        }
        i = i - 1;
    }
}

/// What stands behind the last `p` in `s`, or all of `s` where there is none.
pub fn behind_last<'a>(s: &'a str, p: &str) -> (r: &'a str)
    ensures
        r@ == after_last(s@, p@),
{
    match rfind(s, p) {
        Some(k) => {
            let n: usize = p.unicode_len();
            let len: usize = s.unicode_len();
            assert(k + n <= len);
            tail_of(s, k + n)
        },
        None => s,
    }
}

// ---------------------------------------------------------------------------
// Byte offsets
// ---------------------------------------------------------------------------

/// The number of bytes of a character in UTF-8.
pub open spec fn width(c: char) -> int {
    let n = c as int;
    if n < 0x80 {
        1
    } else if n < 0x800 {
        2
    } else if n < 0x10000 {
        3
    } else {
        4
    }
}

/// The number of bytes of the first `n` characters.
pub open spec fn bytes_upto(s: Seq<char>, n: int) -> int
    decreases n,
{
    if n <= 0 {
        0
    } else {
        bytes_upto(s, n - 1) + width(s[n - 1])
    }
}

/// The number of bytes of a text in UTF-8.
pub open spec fn byte_len(s: Seq<char>) -> int {
    bytes_upto(s, s.len() as int)
}

/// The index of the first character that begins at byte `b` or later, where
/// `s[i..]` begins at byte zero.
pub open spec fn index_from(s: Seq<char>, b: int, i: int) -> int
    decreases s.len() - i,
{
    if b <= 0 || i < 0 || i >= s.len() {
        i
    } else {
        index_from(s, b - width(s[i]), i + 1)
    }
}

/// The index of the first character that begins at byte `b` or later.
pub open spec fn index_at(s: Seq<char>, b: int) -> int {
    index_from(s, b, 0)
}

/// The text between two byte offsets.
pub open spec fn span(s: Seq<char>, from: int, to: int) -> Seq<char> {
    let a = index_at(s, from);
    let b = index_at(s, to);
    if a <= b {
        s.subrange(a, b)
    } else {
        Seq::empty()
    }
}

/// The number of bytes of a character in UTF-8.
pub fn width_of(c: char) -> (r: usize)
    ensures
        r == width(c),
        1 <= r <= 4,
{
    let n: u32 = c as u32;
    if n < 0x80 {
        1
    } else if n < 0x800 {
        2
    } else if n < 0x10000 {
        3
    } else {
        4
    }
}

/// The index of the first character that begins at byte `b` or later.
pub fn char_index(chars: &Vec<char>, b: usize) -> (r: usize)
    ensures
        r == index_at(chars@, b as int),
        r <= chars@.len(),
{
    let mut rest: usize = b;
    let mut i: usize = 0;
    while i < chars.len() && rest > 0
        invariant
            i <= chars@.len(),
            index_at(chars@, b as int) == index_from(chars@, rest as int, i as int),
        decreases chars@.len() - i,
    {
        let w: usize = width_of(chars[i]);
        assert(index_from(chars@, rest as int, i as int) == index_from(chars@, rest - w, i + 1));
        if w < rest {
            rest = rest - w;
        } else {
            assert(index_from(chars@, rest - w, i + 1) == i + 1);
            rest = 0;
            assert(index_from(chars@, rest as int, i + 1) == i + 1);
        }
        i = i + 1;
    }
    i
}

pub proof fn index_from_bounds(s: Seq<char>, b: int, i: int)
    requires
        0 <= i <= s.len(),
    ensures
        i <= index_from(s, b, i) <= s.len(),
    decreases s.len() - i,
{
    if b > 0 && i < s.len() {
        index_from_bounds(s, b - width(s[i]), i + 1);
    }
}

/// The text between two byte offsets.
pub fn span_of(chars: &Vec<char>, from: usize, to: usize) -> (r: String)
    ensures
        r@ == span(chars@, from as int, to as int),
{
    let a: usize = char_index(chars, from);
    let b: usize = char_index(chars, to);
    if a <= b {
        text_of(chars, a, b)
    } else {
        String::new()
    }
}

/// The number of line feeds among the first `n` characters.
pub open spec fn feeds(s: Seq<char>, n: int) -> int
    decreases n,
{
    if n <= 0 {
        0
    } else if s[n - 1] == '\n' {
        feeds(s, n - 1) + 1
    } else {
        feeds(s, n - 1)
    }
}

/// The number of characters of `s[..n]` behind its last line feed.
pub open spec fn column(s: Seq<char>, n: int) -> int
    decreases n,
{
    if n <= 0 || s[n - 1] == '\n' {
        0
    } else {
        column(s, n - 1) + 1
    }
}

// ---------------------------------------------------------------------------
// Copies and small list operations
// ---------------------------------------------------------------------------

/// A copy of a list of texts.
pub fn copy_texts(v: &Vec<String>) -> (r: Vec<String>)
    ensures
        r.deep_view() == v.deep_view(),
        r@ == v@,
{
    let r = v.clone();
    assert(r@ =~= v@);
    r
}

/// A copy of a text that may be absent.
pub fn copy_text_option(v: &Option<String>) -> (r: Option<String>)
    ensures
        r.deep_view() == v.deep_view(),
{
    match v {
        Some(s) => Some(s.clone()),
        None => None,
    }
}

/// Appends the texts of `b` to `a`.
pub fn append_texts(a: &mut Vec<String>, b: &Vec<String>)
    ensures
        final(a).deep_view() == old(a).deep_view() + b.deep_view(),
{
    let ghost start = a.deep_view();
    let mut i: usize = 0;
    assert(start + b.deep_view().take(0) =~= start);
    while i < b.len()
        invariant
            i <= b@.len(),
            a.deep_view() == start + b.deep_view().take(i as int),
        decreases b@.len() - i,
    {
        add_item(a, b[i].clone());
        assert(start + b.deep_view().take(i + 1) =~= (start + b.deep_view().take(i as int)).push(
            b[i as int]@,
        ));
        i = i + 1;
    }
    assert(b.deep_view().take(b@.len() as int) =~= b.deep_view());
}

/// The texts of `s[..n]`, each once, in the order of their first occurrence.
pub open spec fn distinct_upto(s: Seq<Seq<char>>, n: int) -> Seq<Seq<char>>
    decreases n,
{
    if n <= 0 {
        Seq::empty()
    } else {
        let done = distinct_upto(s, n - 1);
        if done.contains(s[n - 1]) {
            done
        } else {
            done.push(s[n - 1])
        }
    }
}

/// The texts of a list, each once, in the order of their first occurrence.
pub open spec fn distinct(s: Seq<Seq<char>>) -> Seq<Seq<char>> {
    distinct_upto(s, s.len() as int)
}

/// The texts of a list, each once, in the order of their first occurrence.
pub fn without_repeats(v: &Vec<String>) -> (r: Vec<String>)
    ensures
        r.deep_view() == distinct(v.deep_view()),
{
    let mut out: Vec<String> = Vec::new();
    assert(out.deep_view() =~= Seq::empty());
    let mut i: usize = 0;
    while i < v.len()
        invariant
            i <= v@.len(),
            out.deep_view() == distinct_upto(v.deep_view(), i as int),
        decreases v@.len() - i,
    {
        if !list_has(&out, v[i].as_str()) {
            add_item(&mut out, v[i].clone());
        }
        i = i + 1;
    }
    out
}

proof fn distinct_upto_keeps(s: Seq<Seq<char>>, n: int)
    requires
        0 <= n <= s.len(),
    ensures
        forall|x: Seq<char>| distinct_upto(s, n).contains(x) <==> s.take(n).contains(x),
        distinct_upto(s, n).no_duplicates(),
    decreases n,
{
    if n > 0 {
        distinct_upto_keeps(s, n - 1);
        let done = distinct_upto(s, n - 1);
        assert(s.take(n) =~= s.take(n - 1).push(s[n - 1]));
        assert forall|x: Seq<char>| distinct_upto(s, n).contains(x) <==> s.take(n).contains(x) by {
            push_contains(s.take(n - 1), s[n - 1], x);
            push_contains(done, s[n - 1], x);
        }
    }
}

/// A list with one element more holds that element and what it held before.
pub proof fn push_contains<A>(s: Seq<A>, v: A, x: A)
    ensures
        s.push(v).contains(x) <==> s.contains(x) || v == x,
{
    let t = s.push(v);
    if s.contains(x) {
        let k = choose|k: int| 0 <= k < s.len() && #[trigger] s[k] == x;
        assert(t[k] == x);
    }
    assert(t[s.len() as int] == v);
    if t.contains(x) {
        let k = choose|k: int| 0 <= k < t.len() && #[trigger] t[k] == x;
        if k < s.len() {
            assert(s[k] == x);
        }
    }
}

/// `distinct` keeps the texts of a list and repeats none.
pub proof fn distinct_keeps_members(s: Seq<Seq<char>>)
    ensures
        forall|x: Seq<char>| distinct(s).contains(x) <==> s.contains(x),
        distinct(s).no_duplicates(),
{
    distinct_upto_keeps(s, s.len() as int);
    assert(s.take(s.len() as int) =~= s);
}

// ---------------------------------------------------------------------------
// Numbers
// ---------------------------------------------------------------------------

/// A decimal digit.
pub open spec fn digit(d: int) -> char {
    if d == 0 {
        '0'
    } else if d == 1 {
        '1'
    } else if d == 2 {
        '2'
    } else if d == 3 {
        '3'
    } else if d == 4 {
        '4'
    } else if d == 5 {
        '5'
    } else if d == 6 {
        '6'
    } else if d == 7 {
        '7'
    } else if d == 8 {
        '8'
    } else {
        '9'
    }
}

/// A number in decimal digits, without leading zeros.
pub open spec fn decimal(n: int) -> Seq<char>
    decreases n,
{
    if n < 10 {
        seq![digit(n)]
    } else {
        decimal(n / 10).push(digit(n % 10))
    }
}

fn digit_of(d: usize) -> (r: char)
    requires
        d < 10,
    ensures
        r == digit(d as int),
{
    if d == 0 {
        '0'
    } else if d == 1 {
        '1'
    } else if d == 2 {
        '2'
    } else if d == 3 {
        '3'
    } else if d == 4 {
        '4'
    } else if d == 5 {
        '5'
    } else if d == 6 {
        '6'
    } else if d == 7 {
        '7'
    } else if d == 8 {
        '8'
    } else {
        '9'
    }
}

/// A number in decimal digits.
pub fn number_text(n: usize) -> (r: String)
    ensures
        r@ == decimal(n as int),
    decreases n,
{
    if n < 10 {
        let mut out = String::new();
        out.push(digit_of(n));
        assert(out@ =~= seq![digit(n as int)]);
        out
    } else {
        let mut out = number_text(n / 10);
        out.push(digit_of(n % 10));
        out
    }
}

/// Different numbers have different digits.
pub proof fn decimal_injective(a: int, b: int)
    requires
        0 <= a,
        0 <= b,
        decimal(a) == decimal(b),
    ensures
        a == b,
    decreases a,
{
    let x = decimal(a);
    let y = decimal(b);
    assert(x.last() == digit(a % 10));
    assert(y.last() == digit(b % 10));
    if a < 10 && b < 10 {
    } else if a < 10 {
        decimal_nonempty(b / 10);
        assert(x.len() == 1);
        assert(y.len() >= 2);
    } else if b < 10 {
        decimal_nonempty(a / 10);
        assert(y.len() == 1);
        assert(x.len() >= 2);
    } else {
        assert(x.drop_last() =~= decimal(a / 10));
        assert(y.drop_last() =~= decimal(b / 10));
        decimal_injective(a / 10, b / 10);
    }
}

proof fn decimal_nonempty(n: int)
    ensures
        decimal(n).len() >= 1,
    decreases n,
{
    if n >= 10 {
        decimal_nonempty(n / 10);
    }
}

/// Appends the items of `b` to `a`.
pub fn add_items<T: DeepView>(a: &mut Vec<T>, b: Vec<T>)
    ensures
        final(a).deep_view() == old(a).deep_view() + b.deep_view(),
{
    let ghost x = a.deep_view();
    let mut b = b;
    let ghost y = b.deep_view();
    a.append(&mut b);
    assert(a.deep_view() =~= x + y);
}

} // verus!
