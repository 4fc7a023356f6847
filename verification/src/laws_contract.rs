//! What holds of contract summaries: a summary is read back as what it states.

use vstd::prelude::*;

use crate::contract::{
    bare_params, class_summary, contract_summary, method_summary, paren_from, parsed_class, parsed_classes, parsed_method,
    parsed_methods, parsed_summary,
};
use crate::cpp::HalContractMethodView;
use crate::text::{
    after, before, find_from, is_at, joined, joined_upto, lead, lead_bounds, line_seq, pieces, pieces_from, tail,
    tail_bounds, tokens_from, trimmed, trimmed_end, trims, whitespace, without_return, word_seq,
};

verus! {

/// The text neither begins nor ends in white space, and is not empty.
pub open spec fn solid(s: Seq<char>) -> bool {
    s.len() > 0 && !whitespace(s[0]) && !whitespace(s.last())
}

/// How many parentheses are open behind the first `n` characters.
pub open spec fn open_parens(s: Seq<char>, n: int) -> int
    decreases n,
{
    if n <= 0 {
        0
    } else if s[n - 1] == '(' {
        open_parens(s, n - 1) + 1
    } else if s[n - 1] == ')' {
        open_parens(s, n - 1) - 1
    } else {
        open_parens(s, n - 1)
    }
}

/// Every parenthesis of the text is opened before it is closed, and closed.
pub open spec fn balanced(s: Seq<char>) -> bool {
    open_parens(s, s.len() as int) == 0 && forall|n: int| 0 <= n <= s.len() ==> #[trigger] open_parens(s, n) >= 0
}

/// The method can be told from its neighbours in a summary: its name is one word,
/// its parentheses match, and no part of it holds a mark that ends it.
pub open spec fn readable_method(m: HalContractMethodView) -> bool {
    let ret = trimmed(m.return_type);
    let params = trimmed(m.params);
    &&& m.name.len() > 0
    &&& forall|k: int| 0 <= k < m.name.len() ==> !whitespace(#[trigger] m.name[k])
    &&& !m.name.contains('(') && !m.name.contains(';')
    &&& !ret.contains('(') && !ret.contains(';') && !ret.contains('\n')
    &&& balanced(params) && !params.contains(';') && !params.contains('\n')
}

/// The class can be told from its neighbours in a summary.
pub open spec fn readable_class(c: (Seq<char>, Seq<HalContractMethodView>)) -> bool {
    &&& solid(c.0)
    &&& !c.0.contains(':') && !c.0.contains('\n')
    &&& c.1.len() > 0
    &&& forall|k: int| 0 <= k < c.1.len() ==> readable_method(#[trigger] c.1[k])
}

/// The method as a summary states it: single blanks in the return type, and
/// parameters without their defaults.
pub open spec fn stated_method(m: HalContractMethodView) -> HalContractMethodView {
    HalContractMethodView {
        name: m.name,
        return_type: joined(word_seq(trimmed(m.return_type)), " "@),
        params: bare_params(trimmed(m.params)),
    }
}

/// The class as a summary states it.
pub open spec fn stated_class(c: (Seq<char>, Seq<HalContractMethodView>)) -> (
    Seq<char>,
    Seq<HalContractMethodView>,
) {
    (c.0, Seq::new(c.1.len(), |i: int| stated_method(c.1[i])))
}

// ---------------------------------------------------------------------------
// Texts
// ---------------------------------------------------------------------------

pub(crate) proof fn one_piece(s: Seq<char>, sep: char, start: int, i: int)
    requires
        0 <= start <= i <= s.len(),
        forall|j: int| i <= j < s.len() ==> s[j] != sep,
    ensures
        pieces_from(s, sep, start, i) == seq![s.subrange(start, s.len() as int)],
    decreases s.len() - i,
{
    if i < s.len() {
        one_piece(s, sep, start, i + 1);
    }
}

proof fn piece_from_behind(a: Seq<char>, sep: char, b: Seq<char>, start: int, i: int)
    requires
        0 <= start <= i <= a.len(),
        !b.contains(sep),
    ensures
        pieces_from(a + seq![sep] + b, sep, start, i) == pieces_from(a, sep, start, i).push(b),
    decreases a.len() - i,
{
    let s = a + seq![sep] + b;
    if i < a.len() {
        if a[i] == sep {
            piece_from_behind(a, sep, b, i + 1, i + 1);
            assert(s.subrange(start, i) =~= a.subrange(start, i));
            assert(seq![a.subrange(start, i)] + pieces_from(a, sep, i + 1, i + 1).push(b) =~= (seq![
                a.subrange(start, i),
            ] + pieces_from(a, sep, i + 1, i + 1)).push(b));
        } else {
            piece_from_behind(a, sep, b, start, i + 1);
        }
    } else {
        let n = a.len() as int;
        assert(s[n] == sep);
        assert forall|j: int| n + 1 <= j < s.len() implies s[j] != sep by {
            assert(s[j] == b[j - n - 1]);
        }
        one_piece(s, sep, n + 1, n + 1);
        assert(s.subrange(start, n) =~= a.subrange(start, n));
        assert(s.subrange(n + 1, s.len() as int) =~= b);
        assert(pieces_from(s, sep, start, n) =~= seq![a.subrange(start, n)].push(b));
    }
}

/// A piece behind a separator is the last one.
pub(crate) proof fn piece_behind(a: Seq<char>, sep: char, b: Seq<char>)
    requires
        !b.contains(sep),
    ensures
        pieces(a + seq![sep] + b, sep) == pieces(a, sep).push(b),
{
    piece_from_behind(a, sep, b, 0, 0);
}

proof fn word_from_behind(a: Seq<char>, w: Seq<char>, start: int, i: int)
    requires
        0 <= start <= i <= a.len(),
        w.len() > 0,
        forall|k: int| 0 <= k < w.len() ==> !whitespace(#[trigger] w[k]),
    ensures
        tokens_from(a + seq![' '] + w, None, start, i) == tokens_from(a, None, start, i).push(w),
    decreases a.len() - i,
{
    let s = a + seq![' '] + w;
    if i < a.len() {
        assert(s[i] == a[i]);
        if trims(None, a[i]) {
            word_from_behind(a, w, i + 1, i + 1);
            let rest = tokens_from(a, None, i + 1, i + 1);
            assert(s.subrange(start, i) =~= a.subrange(start, i));
            assert(seq![a.subrange(start, i)] + rest.push(w) =~= (seq![a.subrange(start, i)] + rest).push(w));
        } else {
            word_from_behind(a, w, start, i + 1);
        }
    } else {
        let n = a.len() as int;
        assert(s[n] == ' ');
        last_word(s, n + 1, n + 1);
        assert(s.subrange(n + 1, s.len() as int) =~= w);
        assert(s.subrange(start, n) =~= a.subrange(start, n));
        if start < n {
            assert(tokens_from(s, None, start, n) =~= seq![a.subrange(start, n)].push(w));
        } else {
            assert(tokens_from(s, None, start, n) =~= Seq::<Seq<char>>::empty().push(w));
        }
    }
}

proof fn last_word(s: Seq<char>, start: int, i: int)
    requires
        0 <= start <= i <= s.len(),
        start < s.len(),
        forall|j: int| start <= j < s.len() ==> !whitespace(#[trigger] s[j]),
    ensures
        tokens_from(s, None, start, i) == seq![s.subrange(start, s.len() as int)],
    decreases s.len() - i,
{
    if i < s.len() {
        assert(!whitespace(s[i]));
        last_word(s, start, i + 1);
    }
}

/// A solid text is trimmed already, and a blank before it goes.
pub(crate) proof fn solid_is_trimmed(s: Seq<char>)
    requires
        solid(s),
    ensures
        trimmed(s) == s,
        trimmed_end(s) == s,
        trimmed(" "@ + s) == s,
{
    reveal_strlit(" ");
    assert(lead(s, None, 0) == 0);
    assert(after(s, 0) =~= s);
    assert(tail(s, None, s.len() as int) == s.len());
    assert(before(s, s.len() as int) =~= s);
    let t = " "@ + s;
    assert(t[0] == ' ');
    assert(t[1] == s[0]);
    assert(lead(t, None, 1) == 1);
    assert(lead(t, None, 0) == 1);
    assert(after(t, 1) =~= s);
}

/// What is trimmed is solid or empty.
proof fn trimmed_is_solid(s: Seq<char>)
    ensures
        trimmed(s).len() > 0 ==> solid(trimmed(s)),
{
    lead_bounds(s, None, 0);
    let u = after(s, lead(s, None, 0));
    tail_bounds(u, None, u.len() as int);
}

proof fn first_mark(s: Seq<char>, mark: char, p: Seq<char>, i: int, k: int)
    requires
        p == seq![mark],
        0 <= i <= k < s.len(),
        s[k] == mark,
        forall|j: int| i <= j < k ==> s[j] != mark,
    ensures
        find_from(s, p, i) == Some(k),
    decreases k - i,
{
    assert(s.subrange(i, i + 1) =~= seq![s[i]]);
    assert(seq![s[i]][0] == s[i]);
    assert(seq![mark][0] == mark);
    if i < k {
        assert(!is_at(s, p, i));
        first_mark(s, mark, p, i + 1, k);
    } else {
        assert(is_at(s, p, i));
    }
}

// ---------------------------------------------------------------------------
// Methods
// ---------------------------------------------------------------------------

/// What stands before the parameters of a method.
spec fn method_head(m: HalContractMethodView) -> Seq<char> {
    let ret = trimmed(m.return_type);
    if ret.len() == 0 {
        m.name
    } else {
        ret + seq![' '] + m.name
    }
}

/// What stands between the parentheses of a method does not close them.
proof fn parens_match(t: Seq<char>, params: Seq<char>, po: int, n: int)
    requires
        0 <= po,
        0 <= n <= params.len(),
        po + 1 + params.len() < t.len(),
        t[po] == '(',
        balanced(params),
        forall|k: int| 0 <= k < params.len() ==> t[po + 1 + k] == #[trigger] params[k],
    ensures
        paren_from(t, 0, po) == paren_from(t, 1 + open_parens(params, n), po + 1 + n),
    decreases n,
{
    if n > 0 {
        parens_match(t, params, po, n - 1);
        assert(t[po + n] == params[n - 1]);
        assert(open_parens(params, n) >= 0);
        assert(open_parens(params, n - 1) >= 0);
    }
}

proof fn method_is_read_back(m: HalContractMethodView)
    requires
        readable_method(m),
    ensures
        solid(method_summary(m)),
        !method_summary(m).contains(';'),
        !method_summary(m).contains('\n'),
        method_summary(m).last() == '0',
        parsed_method(" "@ + method_summary(m)) == Some(stated_method(m)),
{
    reveal_strlit("(");
    reveal_strlit(")");
    reveal_strlit(") = 0");
    reveal_strlit(" ");
    let ret = trimmed(m.return_type);
    let params = trimmed(m.params);
    let head = method_head(m);
    let t = method_summary(m);
    let close = seq![')', ' ', '=', ' ', '0'];
    assert(") = 0"@ =~= close);
    assert("("@ =~= seq!['(']);
    assert(" "@ =~= seq![' ']);
    assert(t =~= head + seq!['('] + params + close);
    let po = head.len() as int;
    let pc = po + 1 + params.len();
    trimmed_is_solid(m.return_type);
    assert(!whitespace(m.name[0]) && !whitespace(m.name.last()));
    assert(head.len() > 0 && !whitespace(head[0]) && head.last() == m.name.last());
    assert forall|j: int| 0 <= j < head.len() implies head[j] != '(' && head[j] != ';' && head[j] != '\n' by {
        if ret.len() == 0 {
            assert(head[j] == m.name[j]);
            assert(!whitespace(m.name[j]));
        } else if j < ret.len() {
            assert(head[j] == ret[j]);
        } else if j > ret.len() {
            assert(head[j] == m.name[j - ret.len() - 1]);
            assert(!whitespace(m.name[j - ret.len() - 1]));
        }
    }
    assert forall|j: int| 0 <= j < t.len() implies t[j] != ';' && t[j] != '\n' by {
        if j < po {
            assert(t[j] == head[j]);
        } else if j == po {
        } else if j < pc {
            assert(t[j] == params[j - po - 1]);
        } else {
            assert(t[j] == close[j - pc]);
        }
    }
    assert(t.last() == close[4]);
    assert(t[0] == head[0]);
    solid_is_trimmed(t);
    assert forall|j: int| 0 <= j < po implies t[j] != '(' by {
        assert(t[j] == head[j]);
    }
    assert(t[po] == '(');
    first_mark(t, '(', "("@, 0, po);
    assert(t[pc] == close[0]);
    assert forall|k: int| 0 <= k < params.len() implies t[po + 1 + k] == #[trigger] params[k] by {}
    parens_match(t, params, po, params.len() as int);
    assert(before(t, po) =~= head);
    assert(t.subrange(po + 1, pc) =~= params);
    assert(solid(head));
    solid_is_trimmed(head);
    let tokens = word_seq(head);
    if ret.len() == 0 {
        last_word(m.name, 0, 0);
        assert(m.name.subrange(0, m.name.len() as int) =~= m.name);
        assert(tokens =~= Seq::<Seq<char>>::empty().push(m.name));
        assert(word_seq(ret) =~= Seq::empty());
    } else {
        word_from_behind(ret, m.name, 0, 0);
    }
    assert(tokens == word_seq(ret).push(m.name));
    assert(tokens.drop_last() =~= word_seq(ret));
}

// ---------------------------------------------------------------------------
// Classes
// ---------------------------------------------------------------------------

spec fn summaries(methods: Seq<HalContractMethodView>) -> Seq<Seq<char>> {
    Seq::new(methods.len(), |i: int| method_summary(methods[i]))
}

/// The methods of a class stand apart.
proof fn methods_stand_apart(methods: Seq<HalContractMethodView>, n: int)
    requires
        1 <= n <= methods.len(),
        forall|k: int| 0 <= k < methods.len() ==> readable_method(#[trigger] methods[k]),
    ensures
        pieces(" "@ + joined_upto(summaries(methods), "; "@, n), ';') == Seq::new(
            n as nat,
            |i: int| " "@ + method_summary(methods[i]),
        ),
        joined_upto(summaries(methods), "; "@, n).len() > 0,
        joined_upto(summaries(methods), "; "@, n).last() == '0',
        !joined_upto(summaries(methods), "; "@, n).contains('\n'),
    decreases n,
{
    reveal_strlit("; ");
    reveal_strlit(" ");
    assert(" "@ =~= seq![' ']);
    assert("; "@ =~= seq![';', ' ']);
    let all = summaries(methods);
    let m = method_summary(methods[n - 1]);
    assert(readable_method(methods[n - 1]));
    method_is_read_back(methods[n - 1]);
    let last = " "@ + m;
    assert forall|j: int| 0 <= j < last.len() implies last[j] != ';' by {
        if j > 0 {
            assert(last[j] == m[j - 1]);
        }
    }
    let want = Seq::new(n as nat, |i: int| " "@ + method_summary(methods[i]));
    if n == 1 {
        one_piece(last, ';', 0, 0);
        assert(last.subrange(0, last.len() as int) =~= last);
        assert(want =~= seq![last]);
        assert(joined_upto(all, "; "@, 1) == m);
    } else {
        methods_stand_apart(methods, n - 1);
        let done = joined_upto(all, "; "@, n - 1);
        let now = joined_upto(all, "; "@, n);
        assert(now =~= done + "; "@ + m);
        let a = " "@ + done;
        assert(" "@ + now =~= a + seq![';'] + last);
        piece_behind(a, ';', last);
        assert(want =~= Seq::new((n - 1) as nat, |i: int| " "@ + method_summary(methods[i])).push(last));
        assert(now.last() == m.last());
        assert forall|j: int| 0 <= j < now.len() implies now[j] != '\n' by {
            if j < done.len() {
                assert(now[j] == done[j]);
            } else if j >= done.len() + 2 {
                assert(now[j] == m[j - done.len() - 2]);
            }
        }
    }
}

proof fn methods_are_read_back(methods: Seq<HalContractMethodView>, n: int)
    requires
        0 <= n <= methods.len(),
        forall|k: int| 0 <= k < methods.len() ==> readable_method(#[trigger] methods[k]),
    ensures
        parsed_methods(Seq::new(methods.len(), |i: int| " "@ + method_summary(methods[i])), n)
            == Seq::new(n as nat, |i: int| stated_method(methods[i])),
    decreases n,
{
    if n > 0 {
        methods_are_read_back(methods, n - 1);
        assert(readable_method(methods[n - 1]));
        method_is_read_back(methods[n - 1]);
        assert(Seq::new(n as nat, |i: int| stated_method(methods[i])) =~= Seq::new(
            (n - 1) as nat,
            |i: int| stated_method(methods[i]),
        ).push(stated_method(methods[n - 1])));
    } else {
        assert(Seq::new(0, |i: int| stated_method(methods[i])) =~= Seq::empty());
    }
}

proof fn class_is_read_back(c: (Seq<char>, Seq<HalContractMethodView>))
    requires
        readable_class(c),
    ensures
        class_summary(c).len() > 0,
        class_summary(c).last() == '0',
        !class_summary(c).contains('\n'),
        parsed_class(class_summary(c)) == Some(stated_class(c)),
{
    reveal_strlit(": ");
    reveal_strlit(":");
    reveal_strlit(" ");
    assert(": "@ =~= seq![':', ' ']);
    assert(":"@ =~= seq![':']);
    assert(" "@ =~= seq![' ']);
    let n = c.1.len() as int;
    methods_stand_apart(c.1, n);
    methods_are_read_back(c.1, n);
    let body = joined(summaries(c.1), "; "@);
    let line = class_summary(c);
    assert(summaries(c.1) =~= Seq::new(c.1.len(), |i: int| method_summary(c.1[i])));
    assert(line =~= c.0 + ": "@ + body);
    let colon = c.0.len() as int;
    assert(line[0] == c.0[0]);
    assert(line.last() == body.last());
    assert(!whitespace('0'));
    assert(solid(line));
    solid_is_trimmed(line);
    solid_is_trimmed(c.0);
    assert forall|j: int| 0 <= j < colon implies line[j] != ':' by {
        assert(line[j] == c.0[j]);
    }
    assert(line[colon] == ':');
    first_mark(line, ':', ":"@, 0, colon);
    assert(before(line, colon) =~= c.0);
    assert(after(line, colon + 1) =~= " "@ + body);
    assert forall|j: int| 0 <= j < line.len() implies line[j] != '\n' by {
        if j < colon {
            assert(line[j] == c.0[j]);
        } else if j >= colon + 2 {
            assert(line[j] == body[j - colon - 2]);
        }
    }
}

// ---------------------------------------------------------------------------
// Summaries
// ---------------------------------------------------------------------------

spec fn rows(classes: Seq<(Seq<char>, Seq<HalContractMethodView>)>) -> Seq<Seq<char>> {
    Seq::new(classes.len(), |i: int| class_summary(classes[i]))
}

proof fn classes_stand_apart(classes: Seq<(Seq<char>, Seq<HalContractMethodView>)>, n: int)
    requires
        1 <= n <= classes.len(),
        forall|k: int| 0 <= k < classes.len() ==> readable_class(#[trigger] classes[k]),
    ensures
        pieces(joined_upto(rows(classes), "\n"@, n), '\n') == rows(classes).take(n),
    decreases n,
{
    reveal_strlit("\n");
    assert("\n"@ =~= seq!['\n']);
    let all = rows(classes);
    let row = all[n - 1];
    assert(readable_class(classes[n - 1]));
    class_is_read_back(classes[n - 1]);
    if n == 1 {
        one_piece(row, '\n', 0, 0);
        assert(row.subrange(0, row.len() as int) =~= row);
        assert(all.take(1) =~= seq![row]);
    } else {
        classes_stand_apart(classes, n - 1);
        let done = joined_upto(all, "\n"@, n - 1);
        assert(joined_upto(all, "\n"@, n) =~= done + seq!['\n'] + row);
        piece_behind(done, '\n', row);
        assert(all.take(n) =~= all.take(n - 1).push(row));
    }
}

proof fn classes_are_read_back(classes: Seq<(Seq<char>, Seq<HalContractMethodView>)>, n: int)
    requires
        0 <= n <= classes.len(),
        forall|k: int| 0 <= k < classes.len() ==> readable_class(#[trigger] classes[k]),
    ensures
        parsed_classes(rows(classes), n) == Seq::new(n as nat, |i: int| stated_class(classes[i])),
    decreases n,
{
    if n > 0 {
        classes_are_read_back(classes, n - 1);
        assert(readable_class(classes[n - 1]));
        class_is_read_back(classes[n - 1]);
        assert(Seq::new(n as nat, |i: int| stated_class(classes[i])) =~= Seq::new(
            (n - 1) as nat,
            |i: int| stated_class(classes[i]),
        ).push(stated_class(classes[n - 1])));
    } else {
        assert(Seq::new(0, |i: int| stated_class(classes[i])) =~= Seq::empty());
    }
}

/// A contract summary is read back as the classes and methods that it was made of,
/// in their order, without the defaults of parameters.
pub proof fn summary_is_read_back(classes: Seq<(Seq<char>, Seq<HalContractMethodView>)>)
    requires
        forall|k: int| 0 <= k < classes.len() ==> readable_class(#[trigger] classes[k]),
    ensures
        parsed_summary(contract_summary(classes)) == Seq::new(
            classes.len(),
            |i: int| stated_class(classes[i]),
        ),
{
    let n = classes.len() as int;
    let all = rows(classes);
    let text = contract_summary(classes);
    assert(all =~= Seq::new(classes.len(), |i: int| class_summary(classes[i])));
    classes_are_read_back(classes, n);
    if n == 0 {
        assert(text =~= Seq::empty());
        one_piece(text, '\n', 0, 0);
        assert(text.subrange(0, 0) =~= Seq::empty());
        assert(line_seq(text) =~= Seq::empty());
        assert(all =~= Seq::empty());
    } else {
        classes_stand_apart(classes, n);
        assert(all.take(n) =~= all);
        assert forall|i: int| 0 <= i < n implies without_return(#[trigger] all[i]) == all[i] && all[i].len() > 0 by {
            assert(readable_class(classes[i]));
            class_is_read_back(classes[i]);
        }
        assert(line_seq(text) =~= all);
    }
}

} // verus!
