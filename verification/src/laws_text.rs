//! What the tools for texts do: laws of trimming, splitting and joining.

use vstd::prelude::*;

use crate::laws_contract::{one_piece, piece_behind};
use crate::text::{
    decimal, digit, distinct, distinct_keeps_members, distinct_upto, has_text, is_at, joined, joined_upto, lead,
    lead_bounds, less, line_seq, pieces, pieces_from, replaced, replaced_from, tail, tail_bounds, tokens_from,
    trim_lead, trims, trimmed, whitespace, word_seq,
};

verus! {

/// Something stands in the text besides white space.
pub open spec fn has_ink(s: Seq<char>) -> bool {
    exists|i: int| 0 <= i < s.len() && !whitespace(#[trigger] s[i])
}

/// The text is white space only.
pub open spec fn is_blank(s: Seq<char>) -> bool {
    forall|i: int| 0 <= i < s.len() ==> whitespace(#[trigger] s[i])
}

/// The text is a word: something, and nowhere white space.
pub open spec fn is_one_word(s: Seq<char>) -> bool {
    s.len() > 0 && forall|i: int| 0 <= i < s.len() ==> !whitespace(#[trigger] s[i])
}

/// Trimming takes white space off both ends and nothing else: what it leaves begins
/// and ends with something else, or is empty.
pub proof fn trimming_takes_the_blanks_off(s: Seq<char>)
    ensures
        exists|a: Seq<char>, b: Seq<char>| is_blank(a) && is_blank(b) && s == #[trigger] (a + trimmed(s) + b),
        trimmed(s).len() > 0 ==> !whitespace(trimmed(s)[0]) && !whitespace(trimmed(s).last()),
{
    lead_bounds(s, None, 0);
    let k = lead(s, None, 0);
    let u = trim_lead(s, None);
    tail_bounds(u, None, u.len() as int);
    let n = tail(u, None, u.len() as int);
    let a = s.subrange(0, k);
    let b = u.subrange(n, u.len() as int);
    assert(u =~= s.subrange(k, s.len() as int));
    assert forall|i: int| 0 <= i < a.len() implies whitespace(#[trigger] a[i]) by {
        assert(trims(None, s[i]));
    }
    assert forall|i: int| 0 <= i < b.len() implies whitespace(#[trigger] b[i]) by {
        assert(trims(None, u[n + i]));
    }
    assert(s =~= a + trimmed(s) + b);
}

/// Nothing is left of a text by trimming exactly where it was blank.
pub proof fn trimmed_has_the_ink(s: Seq<char>)
    ensures
        trimmed(s).len() > 0 <==> has_ink(s),
{
    trimming_takes_the_blanks_off(s);
    let (a, b) = choose|a: Seq<char>, b: Seq<char>|
        is_blank(a) && is_blank(b) && s == #[trigger] (a + trimmed(s) + b);
    let t = trimmed(s);
    if t.len() > 0 {
        assert(s[a.len() as int] == t[0]);
    }
    if has_ink(s) && t.len() == 0 {
        let i = choose|i: int| 0 <= i < s.len() && !whitespace(#[trigger] s[i]);
        if i < a.len() {
            assert(s[i] == a[i]);
        } else {
            assert(s[i] == b[i - a.len()]);
        }
    }
}

proof fn tokens_shift(a: Seq<char>, b: Seq<char>, start: int, i: int)
    requires
        0 <= start <= i <= b.len(),
    ensures
        tokens_from(a + b, None, a.len() + start, a.len() + i) == tokens_from(b, None, start, i),
    decreases b.len() - i,
{
    let s = a + b;
    assert(s.subrange(a.len() + start, a.len() + i) =~= b.subrange(start, i));
    if i < b.len() {
        assert(s[a.len() + i] == b[i]);
        tokens_shift(a, b, i + 1, i + 1);
        tokens_shift(a, b, start, i + 1);
    }
}

proof fn tokens_part(a: Seq<char>, c: char, b: Seq<char>, start: int, i: int)
    requires
        whitespace(c),
        0 <= start <= i <= a.len(),
    ensures
        tokens_from(a + seq![c] + b, None, start, i) == tokens_from(a, None, start, i) + tokens_from(b, None, 0, 0),
    decreases a.len() - i,
{
    let s = a + seq![c] + b;
    let rest = tokens_from(b, None, 0, 0);
    if i < a.len() {
        assert(s[i] == a[i]);
        assert(s.subrange(start, i) =~= a.subrange(start, i));
        if trims(None, a[i]) {
            tokens_part(a, c, b, i + 1, i + 1);
            let more = tokens_from(a, None, i + 1, i + 1);
            assert(seq![a.subrange(start, i)] + (more + rest) =~= (seq![a.subrange(start, i)] + more) + rest);
        } else {
            tokens_part(a, c, b, start, i + 1);
        }
    } else {
        assert(s[i] == c);
        assert(s.subrange(start, i) =~= a.subrange(start, i));
        tokens_shift(a + seq![c], b, 0, 0);
        assert(tokens_from(s, None, i + 1, i + 1) == rest);
        if start < i {
            assert(tokens_from(a, None, start, i) =~= seq![a.subrange(start, i)]);
        } else {
            assert(Seq::<Seq<char>>::empty() + rest =~= rest);
        }
    }
}

/// White space parts words: the words of two texts with white space between them are
/// those of the first and behind them those of the second.
pub proof fn white_space_parts_words(a: Seq<char>, c: char, b: Seq<char>)
    requires
        whitespace(c),
    ensures
        word_seq(a + seq![c] + b) == word_seq(a) + word_seq(b),
{
    tokens_part(a, c, b, 0, 0);
}

proof fn one_token(s: Seq<char>, start: int, i: int)
    requires
        0 <= start <= i <= s.len(),
        start < s.len(),
        forall|j: int| i <= j < s.len() ==> !whitespace(#[trigger] s[j]),
    ensures
        tokens_from(s, None, start, i) == seq![s.subrange(start, s.len() as int)],
    decreases s.len() - i,
{
    if i < s.len() {
        assert(!whitespace(s[i]));
        one_token(s, start, i + 1);
    }
}

/// A word is one word, and nothing is none.
pub proof fn word_is_one_word(w: Seq<char>)
    ensures
        is_one_word(w) ==> word_seq(w) == seq![w],
        w.len() == 0 ==> word_seq(w).len() == 0,
{
    if is_one_word(w) {
        one_token(w, 0, 0);
        assert(w.subrange(0, w.len() as int) =~= w);
    }
}

proof fn tokens_are_words(s: Seq<char>, start: int, i: int, k: int)
    requires
        0 <= start <= i <= s.len(),
        forall|j: int| start <= j < i ==> !whitespace(#[trigger] s[j]),
        0 <= k < tokens_from(s, None, start, i).len(),
    ensures
        is_one_word(tokens_from(s, None, start, i)[k]),
    decreases s.len() - i,
{
    let t = s.subrange(start, i);
    assert forall|j: int| 0 <= j < t.len() implies !whitespace(#[trigger] t[j]) by {
        assert(t[j] == s[start + j]);
    }
    if i < s.len() {
        if trims(None, s[i]) {
            if start < i {
                if k > 0 {
                    tokens_are_words(s, i + 1, i + 1, k - 1);
                }
            } else {
                tokens_are_words(s, i + 1, i + 1, k);
            }
        } else {
            tokens_are_words(s, start, i + 1, k);
        }
    }
}

/// Every word of a text is a word.
pub proof fn words_are_words(s: Seq<char>, k: int)
    requires
        0 <= k < word_seq(s).len(),
    ensures
        is_one_word(word_seq(s)[k]),
{
    tokens_are_words(s, 0, 0, k);
}

proof fn words_read_back_upto(ws: Seq<Seq<char>>, n: int)
    requires
        0 <= n <= ws.len(),
        forall|i: int| 0 <= i < ws.len() ==> is_one_word(#[trigger] ws[i]),
    ensures
        word_seq(joined_upto(ws, " "@, n)) == ws.take(n),
    decreases n,
{
    reveal_strlit(" ");
    if n <= 0 {
        word_is_one_word(Seq::empty());
        assert(ws.take(0) =~= Seq::empty());
        assert(word_seq(Seq::<char>::empty()) =~= Seq::empty());
    } else if n == 1 {
        assert(is_one_word(ws[0]));
        word_is_one_word(ws[0]);
        assert(ws.take(1) =~= seq![ws[0]]);
    } else {
        words_read_back_upto(ws, n - 1);
        assert(is_one_word(ws[n - 1]));
        word_is_one_word(ws[n - 1]);
        let done = joined_upto(ws, " "@, n - 1);
        assert(joined_upto(ws, " "@, n) =~= done + seq![' '] + ws[n - 1]);
        white_space_parts_words(done, ' ', ws[n - 1]);
        assert(ws.take(n) =~= ws.take(n - 1) + seq![ws[n - 1]]);
    }
}

/// Words that are joined by blanks are read back as they were.
pub proof fn words_are_read_back(ws: Seq<Seq<char>>)
    requires
        forall|i: int| 0 <= i < ws.len() ==> is_one_word(#[trigger] ws[i]),
    ensures
        word_seq(joined(ws, " "@)) == ws,
{
    words_read_back_upto(ws, ws.len() as int);
    assert(ws.take(ws.len() as int) =~= ws);
}

/// Two texts are the same once white space is collapsed exactly where they have the
/// same words.
pub proof fn collapsed_texts_have_the_same_words(a: Seq<char>, b: Seq<char>)
    ensures
        joined(word_seq(a), " "@) == joined(word_seq(b), " "@) <==> word_seq(a) == word_seq(b),
{
    assert forall|k: int| 0 <= k < word_seq(a).len() implies is_one_word(#[trigger] word_seq(a)[k]) by {
        words_are_words(a, k);
    }
    assert forall|k: int| 0 <= k < word_seq(b).len() implies is_one_word(#[trigger] word_seq(b)[k]) by {
        words_are_words(b, k);
    }
    words_are_read_back(word_seq(a));
    words_are_read_back(word_seq(b));
}

proof fn joined_front(p: Seq<char>, rest: Seq<Seq<char>>, sep: Seq<char>, n: int)
    requires
        1 <= n <= rest.len(),
    ensures
        joined_upto(seq![p] + rest, sep, n + 1) == p + sep + joined_upto(rest, sep, n),
    decreases n,
{
    let all = seq![p] + rest;
    assert(all[n] == rest[n - 1]);
    if n > 1 {
        joined_front(p, rest, sep, n - 1);
        assert(joined_upto(all, sep, n + 1) =~= p + sep + joined_upto(rest, sep, n));
    } else {
        assert(joined_upto(all, sep, 1) == p);
        assert(joined_upto(all, sep, 2) =~= p + sep + rest[0]);
    }
}

proof fn pieces_join_again_from(s: Seq<char>, sep: char, start: int, i: int)
    requires
        0 <= start <= i <= s.len(),
        forall|j: int| start <= j < i ==> s[j] != sep,
    ensures
        pieces_from(s, sep, start, i).len() > 0,
        joined(pieces_from(s, sep, start, i), seq![sep]) == s.subrange(start, s.len() as int),
        forall|k: int|
            0 <= k < pieces_from(s, sep, start, i).len() ==> !(#[trigger] pieces_from(s, sep, start, i)[k]).contains(sep),
    decreases s.len() - i,
{
    let all = pieces_from(s, sep, start, i);
    if i >= s.len() {
        assert(!s.subrange(start, s.len() as int).contains(sep));
    } else if s[i] == sep {
        pieces_join_again_from(s, sep, i + 1, i + 1);
        let rest = pieces_from(s, sep, i + 1, i + 1);
        let first = s.subrange(start, i);
        joined_front(first, rest, seq![sep], rest.len() as int);
        assert(s.subrange(start, s.len() as int) =~= first + seq![sep] + s.subrange(i + 1, s.len() as int));
        assert(!first.contains(sep));
        assert forall|k: int| 0 <= k < all.len() implies !(#[trigger] all[k]).contains(sep) by {
            if k > 0 {
                assert(all[k] == rest[k - 1]);
            }
        }
    } else {
        pieces_join_again_from(s, sep, start, i + 1);
    }
}

/// The pieces of a text hold no separator, and joined by it they are the text again.
pub proof fn pieces_join_again(s: Seq<char>, sep: char)
    ensures
        pieces(s, sep).len() > 0,
        joined(pieces(s, sep), seq![sep]) == s,
        forall|k: int| 0 <= k < pieces(s, sep).len() ==> !(#[trigger] pieces(s, sep)[k]).contains(sep),
{
    pieces_join_again_from(s, sep, 0, 0);
    assert(s.subrange(0, s.len() as int) =~= s);
}

proof fn nothing_replaced_from(s: Seq<char>, from: Seq<char>, to: Seq<char>, i: int)
    requires
        0 <= i <= s.len(),
        from.len() > 0,
        !has_text(s, from),
    ensures
        replaced_from(s, from, to, i) == s.subrange(i, s.len() as int),
    decreases s.len() - i,
{
    if i < s.len() {
        nothing_replaced_from(s, from, to, i + 1);
        assert(!is_at(s, from, i));
        assert(s.subrange(i, s.len() as int) =~= seq![s[i]] + s.subrange(i + 1, s.len() as int));
    } else {
        assert(s.subrange(i, s.len() as int) =~= Seq::empty());
    }
}

/// Where a text does not occur, replacing it changes nothing.
pub proof fn absent_text_is_not_replaced(s: Seq<char>, from: Seq<char>, to: Seq<char>)
    requires
        from.len() > 0,
        !has_text(s, from),
    ensures
        replaced(s, from, to) == s,
{
    nothing_replaced_from(s, from, to, 0);
    assert(s.subrange(0, s.len() as int) =~= s);
}

/// A text does not occur where one of its characters does not.
pub proof fn absent_char_rules_out(s: Seq<char>, p: Seq<char>, c: char)
    requires
        p.contains(c),
        !s.contains(c),
    ensures
        !has_text(s, p),
{
    if has_text(s, p) {
        let i = choose|i: int| is_at(s, p, i);
        let k = choose|k: int| 0 <= k < p.len() && p[k] == c;
        assert(s.subrange(i, i + p.len())[k] == s[i + k]);
    }
}

proof fn copy_behind(a: Seq<char>, b: Seq<char>, from: Seq<char>, to: Seq<char>, i: int)
    requires
        0 <= i,
        from.len() > 0,
    ensures
        replaced_from(a + b, from, to, a.len() + i) == replaced_from(b, from, to, i),
    decreases b.len() - i,
{
    let s = a + b;
    if i < b.len() {
        assert(is_at(s, from, a.len() + i) <==> is_at(b, from, i)) by {
            if i + from.len() <= b.len() {
                assert(s.subrange(a.len() + i, a.len() + i + from.len()) =~= b.subrange(i, i + from.len()));
            }
        }
        assert(s[a.len() + i] == b[i]);
        if is_at(b, from, i) {
            copy_behind(a, b, from, to, i + from.len());
        } else {
            copy_behind(a, b, from, to, i + 1);
        }
    }
}

proof fn kept_before(a: Seq<char>, s: Seq<char>, from: Seq<char>, to: Seq<char>, i: int)
    requires
        from.len() > 0,
        0 <= i <= a.len() <= s.len(),
        a == s.subrange(0, a.len() as int),
        forall|j: int| 0 <= j < a.len() ==> !is_at(s, from, j),
    ensures
        replaced_from(s, from, to, i) == a.subrange(i, a.len() as int) + replaced_from(s, from, to, a.len() as int),
    decreases a.len() - i,
{
    if i < a.len() {
        kept_before(a, s, from, to, i + 1);
        assert(s[i] == a[i]);
        let rest = replaced_from(s, from, to, a.len() as int);
        assert(a.subrange(i, a.len() as int) + rest =~= seq![a[i]] + (a.subrange(i + 1, a.len() as int) + rest));
    } else {
        assert(a.subrange(i, a.len() as int) =~= Seq::empty());
        assert(Seq::<char>::empty() + replaced_from(s, from, to, i) =~= replaced_from(s, from, to, i));
    }
}

/// Replacing takes the copies one after the other from the left: what stands before
/// the first stays, the first becomes the other text, and the same is done behind it.
pub proof fn first_copy_is_replaced(a: Seq<char>, from: Seq<char>, b: Seq<char>, to: Seq<char>)
    requires
        from.len() > 0,
        forall|j: int| 0 <= j < a.len() ==> !is_at(a + from + b, from, j),
    ensures
        replaced(a + from + b, from, to) == a + to + replaced(b, from, to),
{
    let s = a + from + b;
    assert(a =~= s.subrange(0, a.len() as int));
    kept_before(a, s, from, to, 0);
    assert(a.subrange(0, a.len() as int) =~= a);
    assert(s.subrange(a.len() as int, (a.len() + from.len()) as int) =~= from);
    assert(is_at(s, from, a.len() as int));
    copy_behind(a + from, b, from, to, 0);
    assert(a + (to + replaced(b, from, to)) =~= a + to + replaced(b, from, to));
}

/// The number that digits write down.
pub open spec fn number_of(s: Seq<char>) -> int {
    s.fold_left(0int, |v: int, c: char| 10 * v + (c as int - '0' as int))
}

/// A number is written in digits, without a zero in front, and read back.
pub proof fn number_is_read_back(n: int)
    requires
        0 <= n,
    ensures
        number_of(decimal(n)) == n,
        decimal(n).len() > 0,
        forall|i: int| 0 <= i < decimal(n).len() ==> '0' <= #[trigger] decimal(n)[i] <= '9',
        n > 0 ==> decimal(n)[0] != '0',
    decreases n,
{
    let f = |v: int, c: char| 10 * v + (c as int - '0' as int);
    let none = Seq::<char>::empty();
    if n < 10 {
        let s = seq![digit(n)];
        assert(s.drop_last() =~= none);
        assert(none.fold_left(0int, f) == 0);
        assert(s.fold_left(0int, f) == f(s.drop_last().fold_left(0int, f), s.last()));
    } else {
        number_is_read_back(n / 10);
        let head = decimal(n / 10);
        let s = head.push(digit(n % 10));
        assert(s.drop_last() =~= head);
        assert(s.fold_left(0int, f) == f(s.drop_last().fold_left(0int, f), s.last()));
        assert forall|i: int| 0 <= i < s.len() implies '0' <= #[trigger] s[i] <= '9' by {
            if i < head.len() {
                assert(s[i] == head[i]);
            }
        }
        assert(s[0] == head[0]);
    }
}

/// One text more is put behind those that are there, unless it is one of them.
pub proof fn distinct_grows_by_what_is_new(s: Seq<Seq<char>>, x: Seq<char>)
    ensures
        distinct(s.push(x)) == if s.contains(x) {
            distinct(s)
        } else {
            distinct(s).push(x)
        },
        distinct(Seq::<Seq<char>>::empty()).len() == 0,
{
    let t = s.push(x);
    distinct_keeps_members(s);
    distinct_prefix(s, x, s.len() as int);
    assert(t[s.len() as int] == x);
}

proof fn distinct_prefix(s: Seq<Seq<char>>, x: Seq<char>, n: int)
    requires
        0 <= n <= s.len(),
    ensures
        distinct_upto(s.push(x), n) == distinct_upto(s, n),
    decreases n,
{
    if n > 0 {
        distinct_prefix(s, x, n - 1);
        assert(s.push(x)[n - 1] == s[n - 1]);
    }
}

/// The first character in which two texts differ decides which comes first, and a
/// text comes before every longer one that begins with it.
pub proof fn first_difference_decides(p: Seq<char>, c: char, x: Seq<char>, d: char, y: Seq<char>)
    ensures
        c != d ==> (less(p + seq![c] + x, p + seq![d] + y) <==> (c as int) < (d as int)),
        less(p, p + seq![c] + x),
        !less(p + seq![c] + x, p),
    decreases p.len(),
{
    let a = p + seq![c] + x;
    let b = p + seq![d] + y;
    if p.len() > 0 {
        let q = p.drop_first();
        first_difference_decides(q, c, x, d, y);
        assert(a.drop_first() =~= q + seq![c] + x);
        assert(b.drop_first() =~= q + seq![d] + y);
        assert(a[0] == p[0] && b[0] == p[0]);
    } else {
        assert(a[0] == c && b[0] == d);
    }
}

/// Texts as the lines of a file, each closed by a line feed.
pub open spec fn as_lines(ls: Seq<Seq<char>>) -> Seq<char> {
    ls.fold_left(Seq::<char>::empty(), |done: Seq<char>, l: Seq<char>| done + l + seq!['\n'])
}

proof fn lines_stand_apart(ls: Seq<Seq<char>>)
    requires
        forall|i: int| 0 <= i < ls.len() ==> !(#[trigger] ls[i]).contains('\n'),
    ensures
        pieces(as_lines(ls), '\n') == ls.push(Seq::empty()),
    decreases ls.len(),
{
    let f = |done: Seq<char>, l: Seq<char>| done + l + seq!['\n'];
    let none = Seq::<char>::empty();
    if ls.len() == 0 {
        assert(as_lines(ls) == none);
        assert(none.subrange(0, 0) =~= none);
        assert(pieces(none, '\n') =~= seq![none]);
        assert(ls.push(none) =~= seq![none]);
    } else {
        let front = ls.drop_last();
        assert forall|i: int| 0 <= i < front.len() implies !(#[trigger] front[i]).contains('\n') by {
            assert(front[i] == ls[i]);
        }
        lines_stand_apart(front);
        let done = as_lines(front);
        let l = ls.last();
        assert(!ls[ls.len() - 1].contains('\n'));
        assert(as_lines(ls) == done + l + seq!['\n']);
        last_piece_grows(done, '\n', l, 0, 0);
        assert(pieces(done, '\n').last() == none);
        assert(none + l =~= l);
        piece_behind(done + l, '\n', none);
        assert(done + l + seq!['\n'] + none =~= done + l + seq!['\n']);
        assert(pieces(done, '\n').drop_last() =~= front);
        assert(front.push(l) =~= ls);
    }
}

proof fn last_piece_grows(s: Seq<char>, sep: char, l: Seq<char>, start: int, i: int)
    requires
        0 <= start <= i <= s.len(),
        !l.contains(sep),
    ensures
        pieces_from(s, sep, start, i).len() > 0,
        pieces_from(s + l, sep, start, i) == pieces_from(s, sep, start, i).drop_last().push(
            pieces_from(s, sep, start, i).last() + l,
        ),
    decreases s.len() - i,
{
    let t = s + l;
    if i < s.len() {
        assert(t[i] == s[i]);
        if s[i] == sep {
            last_piece_grows(s, sep, l, i + 1, i + 1);
            assert(t.subrange(start, i) =~= s.subrange(start, i));
            let first = seq![s.subrange(start, i)];
            let rest = pieces_from(s, sep, i + 1, i + 1);
            assert((first + rest).drop_last() =~= first + rest.drop_last());
            assert((first + rest).last() == rest.last());
            assert(first + rest.drop_last().push(rest.last() + l) =~= (first + rest.drop_last()).push(
                rest.last() + l,
            ));
        } else {
            last_piece_grows(s, sep, l, start, i + 1);
        }
    } else {
        one_piece(t, sep, start, i);
        let whole = s.subrange(start, s.len() as int);
        assert(t.subrange(start, t.len() as int) =~= whole + l);
        assert(seq![whole].drop_last().push(whole + l) =~= seq![whole + l]);
    }
}

/// Lines that are written one below the other are read back, as long as none holds a
/// line feed or ends in a carriage return.
pub proof fn lines_are_read_back(ls: Seq<Seq<char>>)
    requires
        forall|i: int|
            0 <= i < ls.len() ==> !(#[trigger] ls[i]).contains('\n') && (ls[i].len() == 0 || ls[i].last() != '\r'),
    ensures
        line_seq(as_lines(ls)) == ls,
{
    lines_stand_apart(ls);
    let p = pieces(as_lines(ls), '\n');
    assert(p.last().len() == 0);
    assert forall|i: int| 0 <= i < ls.len() implies line_seq(as_lines(ls))[i] == ls[i] by {
        assert(p[i] == ls[i]);
        assert(ls[i].len() == 0 || ls[i].last() != '\r');
    }
    assert(line_seq(as_lines(ls)) =~= ls);
}

proof fn pieces_shift(a: Seq<char>, b: Seq<char>, sep: char, start: int, i: int)
    requires
        0 <= start <= i <= b.len(),
    ensures
        pieces_from(a + b, sep, a.len() + start, a.len() + i) == pieces_from(b, sep, start, i),
    decreases b.len() - i,
{
    let s = a + b;
    if i < b.len() {
        assert(s[a.len() + i] == b[i]);
        assert(s.subrange(a.len() + start, a.len() + i) =~= b.subrange(start, i));
        pieces_shift(a, b, sep, i + 1, i + 1);
        pieces_shift(a, b, sep, start, i + 1);
    } else {
        assert(s.subrange(a.len() + start, s.len() as int) =~= b.subrange(start, b.len() as int));
    }
}

proof fn pieces_part(a: Seq<char>, sep: char, b: Seq<char>, start: int, i: int)
    requires
        0 <= start <= i <= a.len(),
    ensures
        pieces_from(a + seq![sep] + b, sep, start, i) == pieces_from(a, sep, start, i) + pieces_from(b, sep, 0, 0),
    decreases a.len() - i,
{
    let s = a + seq![sep] + b;
    let rest = pieces_from(b, sep, 0, 0);
    if i < a.len() {
        assert(s[i] == a[i]);
        if a[i] == sep {
            assert(s.subrange(start, i) =~= a.subrange(start, i));
            pieces_part(a, sep, b, i + 1, i + 1);
            let first = seq![a.subrange(start, i)];
            let more = pieces_from(a, sep, i + 1, i + 1);
            assert(first + (more + rest) =~= (first + more) + rest);
        } else {
            pieces_part(a, sep, b, start, i + 1);
        }
    } else {
        assert(s[i] == sep);
        assert(s.subrange(start, i) =~= a.subrange(start, a.len() as int));
        pieces_shift(a + seq![sep], b, sep, 0, 0);
    }
}

/// A separator parts the pieces: those of two texts with one between them are those of
/// the first and behind them those of the second.
pub proof fn separator_parts_pieces(a: Seq<char>, sep: char, b: Seq<char>)
    ensures
        pieces(a + seq![sep] + b, sep) == pieces(a, sep) + pieces(b, sep),
{
    pieces_part(a, sep, b, 0, 0);
}

/// A text without the separator is one piece.
pub proof fn text_without_separator_is_one_piece(s: Seq<char>, sep: char)
    requires
        !s.contains(sep),
    ensures
        pieces(s, sep) == seq![s],
{
    one_piece(s, sep, 0, 0);
    assert(s.subrange(0, s.len() as int) =~= s);
}

/// What stands between two texts is there.
pub proof fn part_is_there(a: Seq<char>, x: Seq<char>, b: Seq<char>)
    ensures
        has_text(a + x + b, x),
{
    let s = a + x + b;
    assert(s.subrange(a.len() as int, (a.len() + x.len()) as int) =~= x);
    assert(is_at(s, x, a.len() as int));
}

} // verus!
