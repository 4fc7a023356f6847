//! What holds of a build file whose source lists are brought up to date: laws over
//! the text that is written.

use vstd::prelude::*;

use crate::generate::{
    list_opening, list_span, merged_entries, quoted_from, source_entries, source_entry, source_lines,
    sources_list, sources_var, upserted,
};
use crate::laws_build::{merged_list_holds_exactly, merging_again_changes_nothing};
use crate::text::{
    after, before, find_from, find_from_is_first, find_last, is_at, joined, joined_upto, last_from,
};

verus! {

/// The text can stand in a source list: it holds neither a quote nor a closing
/// bracket.
pub open spec fn plain(s: Seq<char>) -> bool {
    !s.contains('\'') && !s.contains(')')
}

/// The source list that a build file gives a platform: none where there is no such
/// list, or where it is not closed.
pub open spec fn listed(content: Seq<char>, platform: Seq<char>) -> Option<Seq<Seq<char>>> {
    match list_span(content, platform) {
        None => None,
        Some((start, end)) => Some(quoted_from(content.subrange(start, end), 0)),
    }
}

/// The name can stand in a build file's list variable: it holds neither a quote nor
/// a bracket.
pub open spec fn nameable(platform: Seq<char>) -> bool {
    plain(platform) && !platform.contains('(')
}

proof fn quote_at(s: Seq<char>, k: int)
    ensures
        is_at(s, "'"@, k) <==> 0 <= k < s.len() && s[k] == '\'',
        is_at(s, ")"@, k) <==> 0 <= k < s.len() && s[k] == ')',
        "'"@.len() == 1,
        ")"@.len() == 1,
{
    reveal_strlit("'");
    reveal_strlit(")");
    if 0 <= k < s.len() {
        assert(s.subrange(k, k + 1) =~= seq![s[k]]);
        assert("'"@ =~= seq!['\'']);
        assert(")"@ =~= seq![')']);
        assert(seq![s[k]][0] == s[k]);
    }
}

/// The first place of a mark, found.
proof fn first_quote(s: Seq<char>, i: int, k: int)
    requires
        0 <= i <= k < s.len(),
        s[k] == '\'',
        forall|j: int| i <= j < k ==> s[j] != '\'',
    ensures
        find_from(s, "'"@, i) == Some(k),
    decreases k - i,
{
    quote_at(s, i);
    if i < k {
        first_quote(s, i + 1, k);
    }
}

proof fn first_bracket(s: Seq<char>, i: int, k: int)
    requires
        0 <= i <= k < s.len(),
        s[k] == ')',
        forall|j: int| i <= j < k ==> s[j] != ')',
    ensures
        find_from(s, ")"@, i) == Some(k),
    decreases k - i,
{
    quote_at(s, i);
    if i < k {
        first_bracket(s, i + 1, k);
    }
}

proof fn no_quote(s: Seq<char>, i: int)
    requires
        0 <= i,
        forall|j: int| i <= j < s.len() ==> s[j] != '\'',
    ensures
        find_from(s, "'"@, i) is None,
    decreases s.len() - i,
{
    quote_at(s, i);
    if i < s.len() {
        no_quote(s, i + 1);
    }
}

/// Where the first quote from `i` on stands, or that there is none.
proof fn quote_facts(s: Seq<char>, i: int)
    requires
        0 <= i,
    ensures
        find_from(s, "'"@, i) matches Some(k) ==> i <= k < s.len() && s[k] == '\'' && forall|j: int|
            i <= j < k ==> s[j] != '\'',
        find_from(s, "'"@, i) is None ==> forall|j: int| i <= j < s.len() ==> s[j] != '\'',
{
    find_from_is_first(s, "'"@, i);
    match find_from(s, "'"@, i) {
        Some(k) => {
            quote_at(s, k);
            assert forall|j: int| i <= j < k implies s[j] != '\'' by {
                quote_at(s, j);
            }
        },
        None => {
            assert forall|j: int| i <= j < s.len() implies s[j] != '\'' by {
                quote_at(s, j);
            }
        },
    }
}

/// Every quote from `i` on that opens is closed.
spec fn balanced(s: Seq<char>, i: int) -> bool
    decreases s.len() - i,
    when 0 <= i
{
    match find_from(s, "'"@, i) {
        None => true,
        Some(a) => match find_from(s, "'"@, a + 1) {
            None => false,
            Some(b) => if i <= a && a < b && b < s.len() {
                balanced(s, b + 1)
            } else {
                false
            },
        },
    }
}

/// One more quoted text behind a balanced one is read behind the others.
proof fn one_more(x: Seq<char>, i: int, lead: Seq<char>, e: Seq<char>, tail: Seq<char>)
    requires
        0 <= i <= x.len(),
        balanced(x, i),
        !lead.contains('\''),
        !e.contains('\''),
        !tail.contains('\''),
    ensures
        quoted_from(x + lead + seq!['\''] + e + seq!['\''] + tail, i) == quoted_from(x, i).push(e),
        balanced(x + lead + seq!['\''] + e + seq!['\''] + tail, i),
    decreases x.len() - i,
{
    let y = x + lead + seq!['\''] + e + seq!['\''] + tail;
    let p: int = x.len() as int + lead.len();
    let q: int = p + 1 + e.len();
    quote_facts(x, i);
    match find_from(x, "'"@, i) {
        None => {
            assert forall|j: int| i <= j < p implies y[j] != '\'' by {
                if j >= x.len() {
                    assert(y[j] == lead[j - x.len()]);
                }
            }
            assert(y[p] == '\'');
            first_quote(y, i, p);
            assert forall|j: int| p + 1 <= j < q implies y[j] != '\'' by {
                assert(y[j] == e[j - p - 1]);
            }
            assert(y[q] == '\'');
            first_quote(y, p + 1, q);
            assert(y.subrange(p + 1, q) =~= e);
            assert forall|j: int| q + 1 <= j < y.len() implies y[j] != '\'' by {
                assert(y[j] == tail[j - q - 1]);
            }
            no_quote(y, q + 1);
            assert(quoted_from(y, q + 1) =~= Seq::empty());
            assert(balanced(y, q + 1));
            assert(quoted_from(x, i) =~= Seq::empty());
            assert(quoted_from(y, i) =~= seq![e]);
        },
        Some(a) => {
            quote_facts(x, a + 1);
            let b = find_from(x, "'"@, a + 1)->0;
            first_quote(y, i, a);
            first_quote(y, a + 1, b);
            assert(y.subrange(a + 1, b) =~= x.subrange(a + 1, b));
            one_more(x, b + 1, lead, e, tail);
            assert(quoted_from(y, i) =~= seq![y.subrange(a + 1, b)] + quoted_from(y, b + 1));
            assert(quoted_from(x, i) =~= seq![x.subrange(a + 1, b)] + quoted_from(x, b + 1));
            assert(seq![x.subrange(a + 1, b)] + quoted_from(x, b + 1).push(e) =~= (seq![
                x.subrange(a + 1, b),
            ] + quoted_from(x, b + 1)).push(e));
        },
    }
}

/// Text without quotes behind a balanced one changes nothing.
proof fn quotes_end(x: Seq<char>, i: int, tail: Seq<char>)
    requires
        0 <= i <= x.len(),
        balanced(x, i),
        !tail.contains('\''),
    ensures
        quoted_from(x + tail, i) == quoted_from(x, i),
    decreases x.len() - i,
{
    let y = x + tail;
    quote_facts(x, i);
    match find_from(x, "'"@, i) {
        None => {
            assert forall|j: int| i <= j < y.len() implies y[j] != '\'' by {
                if j >= x.len() {
                    assert(y[j] == tail[j - x.len()]);
                }
            }
            no_quote(y, i);
        },
        Some(a) => {
            quote_facts(x, a + 1);
            let b = find_from(x, "'"@, a + 1)->0;
            first_quote(y, i, a);
            first_quote(y, a + 1, b);
            assert(y.subrange(a + 1, b) =~= x.subrange(a + 1, b));
            quotes_end(x, b + 1, tail);
        },
    }
}

/// What stands before the entries of a source list.
spec fn opening(platform: Seq<char>) -> Seq<char> {
    sources_var(platform) + " = files(\n"@
}

spec fn rows(entries: Seq<Seq<char>>) -> Seq<Seq<char>> {
    Seq::new(entries.len(), |i: int| "        '"@ + entries[i] + "',"@)
}

proof fn opening_is_plain(platform: Seq<char>)
    requires
        plain(platform),
    ensures
        plain(opening(platform)),
{
    reveal_strlit("hal_impl_");
    reveal_strlit("_sources");
    reveal_strlit(" = files(\n");
    let s = opening(platform);
    let a = "hal_impl_"@;
    let b = a + platform;
    let c = b + "_sources"@;
    assert(s =~= c + " = files(\n"@);
    assert forall|j: int| 0 <= j < s.len() implies s[j] != '\'' && s[j] != ')' by {
        if j < a.len() {
            assert(s[j] == a[j]);
        } else if j < b.len() {
            assert(s[j] == platform[j - a.len()]);
        } else if j < c.len() {
            assert(s[j] == "_sources"@[j - b.len()]);
        } else {
            assert(s[j] == " = files(\n"@[j - c.len()]);
        }
    }
}

/// The rows of a source list are read back, and hold no closing bracket.
proof fn rows_are_read(head: Seq<char>, entries: Seq<Seq<char>>, n: int)
    requires
        plain(head),
        0 <= n <= entries.len(),
        forall|k: int| 0 <= k < entries.len() ==> plain(#[trigger] entries[k]),
    ensures
        balanced(head + joined_upto(rows(entries), "\n"@, n), 0),
        quoted_from(head + joined_upto(rows(entries), "\n"@, n), 0) == entries.take(n),
        !(head + joined_upto(rows(entries), "\n"@, n)).contains(')'),
    decreases n,
{
    let now = head + joined_upto(rows(entries), "\n"@, n);
    if n == 0 {
        assert(now =~= head);
        no_quote(now, 0);
        assert(entries.take(0) =~= Seq::empty());
    } else {
        rows_are_read(head, entries, n - 1);
        let x = head + joined_upto(rows(entries), "\n"@, n - 1);
        let e = entries[n - 1];
        reveal_strlit("\n");
        reveal_strlit("        '");
        reveal_strlit("',");
        assert(plain(e));
        let lead = if n == 1 {
            seq![' ', ' ', ' ', ' ', ' ', ' ', ' ', ' ']
        } else {
            seq!['\n', ' ', ' ', ' ', ' ', ' ', ' ', ' ', ' ']
        };
        assert(lead.len() >= 8);
        assert(forall|j: int| 0 <= j < lead.len() ==> lead[j] == ' ' || lead[j] == '\n');
        let tail = seq![','];
        one_more(x, 0, lead, e, tail);
        let y = x + lead + seq!['\''] + e + seq!['\''] + tail;
        let row = rows(entries)[n - 1];
        assert(row =~= seq![' ', ' ', ' ', ' ', ' ', ' ', ' ', ' '] + seq!['\''] + e + seq!['\''] + tail);
        if n == 1 {
            assert(x =~= head);
        }
        assert(now =~= y);
        assert(entries.take(n) =~= entries.take(n - 1).push(e));
        assert forall|j: int| 0 <= j < y.len() implies y[j] != ')' by {
            let p = x.len() + lead.len();
            if j < x.len() {
                assert(y[j] == x[j]);
            } else if j < p {
                assert(y[j] == lead[j - x.len()]);
            } else if j == p {
            } else if j < p + 1 + e.len() {
                assert(y[j] == e[j - p - 1]);
            } else if j == p + 1 + e.len() {
            } else {
                assert(y[j] == tail[j - p - 2 - e.len()]);
            }
        }
    }
}

/// A source list in a text, as far as its closing bracket.
proof fn list_is_read(lead: Seq<char>, platform: Seq<char>, entries: Seq<Seq<char>>, tail: Seq<char>)
    requires
        plain(platform),
        forall|k: int| 0 <= k < entries.len() ==> plain(#[trigger] entries[k]),
    ensures
        ({
            let whole = lead + sources_list(platform, entries) + tail;
            let end = lead.len() + sources_list(platform, entries).len() - 1;
            &&& find_from(whole, ")"@, lead.len() as int) == Some(end)
            &&& quoted_from(whole.subrange(lead.len() as int, end), 0) == entries
            &&& before(whole, lead.len() as int) == lead
            &&& after(whole, end + 1) == tail
        }),
{
    reveal_strlit("\n    )");
    let list = sources_list(platform, entries);
    let whole = lead + list + tail;
    let end = lead.len() + list.len() - 1;
    let head = opening(platform);
    opening_is_plain(platform);
    rows_are_read(head, entries, entries.len() as int);
    let x = head + joined(rows(entries), "\n"@);
    let gap = seq!['\n', ' ', ' ', ' ', ' '];
    assert(source_lines(entries) =~= joined(rows(entries), "\n"@));
    assert(list =~= x + gap + seq![')']);
    assert(list.len() == x.len() + 6);
    let block = x + gap;
    assert(forall|j: int| 0 <= j < gap.len() ==> gap[j] == ' ' || gap[j] == '\n');
    quotes_end(x, 0, gap);
    assert(entries.take(entries.len() as int) =~= entries);
    assert(whole.subrange(lead.len() as int, end as int) =~= block);
    assert forall|j: int| lead.len() <= j < end implies whole[j] != ')' by {
        let i = j - lead.len();
        assert(whole[j] == list[i]);
        if i < x.len() {
            assert(list[i] == x[i]);
        } else {
            assert(list[i] == gap[i - x.len()]);
        }
    }
    assert(whole[end as int] == ')');
    first_bracket(whole, lead.len() as int, end as int);
    assert(before(whole, lead.len() as int) =~= lead);
    assert(after(whole, end + 1) =~= tail);
}

/// What stands between quotes holds no quote, and nothing that the text lacks.
proof fn quoted_is_plain(s: Seq<char>, i: int, k: int)
    requires
        0 <= i <= s.len(),
        !s.contains(')'),
        0 <= k < quoted_from(s, i).len(),
    ensures
        plain(quoted_from(s, i)[k]),
    decreases s.len() - i,
{
    quote_facts(s, i);
    let a = find_from(s, "'"@, i)->0;
    quote_facts(s, a + 1);
    let b = find_from(s, "'"@, a + 1)->0;
    if k == 0 {
        let e = s.subrange(a + 1, b);
        assert forall|j: int| 0 <= j < e.len() implies e[j] != '\'' && e[j] != ')' by {
            assert(e[j] == s[a + 1 + j]);
        }
    } else {
        quoted_is_plain(s, b + 1, k - 1);
    }
}

proof fn entry_is_plain(platform: Seq<char>, file: Seq<char>)
    requires
        nameable(platform),
        nameable(file),
    ensures
        nameable(source_entry(platform, file)),
{
    reveal_strlit("implementations/");
    reveal_strlit("/");
    let a = "implementations/"@;
    let b = a + platform;
    let c = b + "/"@;
    let s = source_entry(platform, file);
    assert(s =~= c + file);
    assert forall|j: int| 0 <= j < s.len() implies s[j] != '\'' && s[j] != ')' && s[j] != '(' by {
        if j < a.len() {
            assert(s[j] == a[j]);
        } else if j < b.len() {
            assert(s[j] == platform[j - a.len()]);
        } else if j < c.len() {
            assert(s[j] == "/"@[j - b.len()]);
        } else {
            assert(s[j] == file[j - c.len()]);
        }
    }
}

/// A pattern that is first at a place stays first there whatever follows it.
proof fn first_stays(s: Seq<char>, t: Seq<char>, p: Seq<char>, i: int, start: int)
    requires
        0 <= i <= start,
        start + p.len() <= s.len(),
        start + p.len() <= t.len(),
        s.subrange(0, start + p.len()) == t.subrange(0, start + p.len()),
        is_at(s, p, start),
        forall|j: int| i <= j < start ==> !is_at(s, p, j),
    ensures
        find_from(t, p, i) == Some(start),
    decreases start - i,
{
    let n = start + p.len();
    assert(t.subrange(i, i + p.len()) =~= t.subrange(0, n).subrange(i, i + p.len()));
    assert(s.subrange(i, i + p.len()) =~= s.subrange(0, n).subrange(i, i + p.len()));
    if i < start {
        assert(!is_at(s, p, i));
        first_stays(s, t, p, i + 1, start);
    }
}

/// What `last_from` finds.
proof fn last_facts(s: Seq<char>, p: Seq<char>, i: int)
    ensures
        (match last_from(s, p, i) {
            Some(k) => 0 <= k <= i && is_at(s, p, k) && forall|j: int|
                k < j <= i ==> !is_at(s, p, j),
            None => forall|j: int| 0 <= j <= i ==> !is_at(s, p, j),
        }),
    decreases i + 1,
{
    if i >= 0 && !is_at(s, p, i) {
        last_facts(s, p, i - 1);
    }
}

/// The last place of a pattern, found.
proof fn last_is(s: Seq<char>, p: Seq<char>, k: int)
    requires
        is_at(s, p, k),
        forall|j: int| k < j ==> !is_at(s, p, j),
    ensures
        find_last(s, p) == Some(k),
{
    last_facts(s, p, s.len() - p.len());
}

/// What stands in a part of a text stands in the whole.
proof fn at_within(s: Seq<char>, from: int, to: int, p: Seq<char>, j: int)
    requires
        0 <= from <= to <= s.len(),
    ensures
        is_at(s.subrange(from, to), p, j) <==> 0 <= j && from + j + p.len() <= to && is_at(s, p, from + j),
{
    if 0 <= j && from + j + p.len() <= to {
        assert(s.subrange(from, to).subrange(j, j + p.len()) =~= s.subrange(from + j, from + j + p.len()));
    }
}

/// The beginning of a source list has one opening bracket, at its end, and neither a
/// quote nor a closing bracket.
proof fn opening_facts(platform: Seq<char>)
    requires
        nameable(platform),
    ensures
        list_opening(platform).len() > 0,
        forall|k: int|
            0 <= k < list_opening(platform).len() ==> (#[trigger] list_opening(platform)[k] == '(' <==> k
                == list_opening(platform).len() - 1),
        plain(list_opening(platform)),
{
    reveal_strlit("hal_impl_");
    reveal_strlit("_sources");
    reveal_strlit(" = files(");
    let a = "hal_impl_"@;
    let b = a + platform;
    let c = b + "_sources"@;
    let s = list_opening(platform);
    assert(s =~= c + " = files("@);
    assert forall|k: int| 0 <= k < s.len() implies (#[trigger] s[k] == '(' <==> k == s.len() - 1) && s[k] != '\''
        && s[k] != ')' by {
        if k < a.len() {
            assert(s[k] == a[k]);
        } else if k < b.len() {
            assert(s[k] == platform[k - a.len()]);
        } else if k < c.len() {
            assert(s[k] == "_sources"@[k - b.len()]);
        } else {
            assert(s[k] == " = files("@[k - c.len()]);
        }
    }
}

/// The characters of a pattern where it stands.
proof fn char_at(s: Seq<char>, p: Seq<char>, j: int, k: int)
    requires
        is_at(s, p, j),
        0 <= k < p.len(),
    ensures
        s[j + k] == p[k],
{
    assert(s.subrange(j, j + p.len())[k] == s[j + k]);
}

/// What is known of the place of a source list.
proof fn span_facts(content: Seq<char>, platform: Seq<char>)
    requires
        nameable(platform),
        list_span(content, platform) is Some,
    ensures
        ({
            let p = list_opening(platform);
            let (start, end) = list_span(content, platform)->0;
            let first = find_from(content, p, 0)->0;
            &&& 0 <= first <= start
            &&& start + p.len() <= end < content.len()
            &&& is_at(content, p, first)
            &&& is_at(content, p, start)
            &&& forall|j: int| 0 <= j < first ==> !is_at(content, p, j)
            &&& forall|j: int| start < j && j + p.len() <= end ==> !is_at(content, p, j)
            &&& forall|j: int| first <= j < end ==> content[j] != ')'
        }),
{
    let p = list_opening(platform);
    let (start, end) = list_span(content, platform)->0;
    let first = find_from(content, p, 0)->0;
    find_from_is_first(content, p, 0);
    find_from_is_first(content, ")"@, first);
    quote_at(content, end);
    assert forall|j: int| first <= j < end implies content[j] != ')' by {
        quote_at(content, j);
    }
    let head = before(content, end);
    last_facts(head, p, head.len() - p.len());
    at_within(content, 0, end, p, start);
    assert forall|j: int| start < j && j + p.len() <= end implies !is_at(content, p, j) by {
        at_within(content, 0, end, p, j);
    }
    opening_facts(platform);
    assert(first + p.len() <= end) by {
        if end < first + p.len() {
            char_at(content, p, first, end - first);
        }
    }
    at_within(content, 0, end, p, first);
}

/// Where a list was begun, the bracket that follows closes a beginning.
proof fn begun_is_closed(content: Seq<char>, platform: Seq<char>)
    requires
        nameable(platform),
        list_span(content, platform) is None,
    ensures
        find_from(content, list_opening(platform), 0) matches Some(first) ==> find_from(
            content,
            ")"@,
            first,
        ) is None,
{
    let p = list_opening(platform);
    if let Some(first) = find_from(content, p, 0) {
        find_from_is_first(content, p, 0);
        if let Some(end) = find_from(content, ")"@, first) {
            find_from_is_first(content, ")"@, first);
            quote_at(content, end);
            opening_facts(platform);
            assert(first + p.len() <= end) by {
                if end < first + p.len() {
                    char_at(content, p, first, end - first);
                }
            }
            let head = before(content, end);
            at_within(content, 0, end, p, first);
            last_facts(head, p, head.len() - p.len());
        }
    }
}

/// The pattern stands nowhere in the text.
spec fn lacks(s: Seq<char>, p: Seq<char>) -> bool {
    forall|j: int| !is_at(s, p, j)
}

/// The rows of a list hold no second beginning of it.
proof fn rows_begin_nothing(platform: Seq<char>, entries: Seq<Seq<char>>, n: int, j: int)
    requires
        nameable(platform),
        0 <= n <= entries.len(),
        forall|k: int| 0 <= k < entries.len() ==> lacks(#[trigger] entries[k], list_opening(platform)),
        is_at(opening(platform) + joined_upto(rows(entries), "\n"@, n), list_opening(platform), j),
    ensures
        j == 0,
    decreases n,
{
    let p = list_opening(platform);
    let head = opening(platform);
    let now = head + joined_upto(rows(entries), "\n"@, n);
    opening_facts(platform);
    reveal_strlit(" = files(");
    reveal_strlit(" = files(\n");
    assert(head =~= p + seq!['\n']);
    let last = j + p.len() - 1;
    char_at(now, p, j, p.len() - 1);
    if n == 0 {
        assert(now =~= head);
        if last < p.len() {
            assert(head[last] == p[last]);
        }
    } else {
        let x = head + joined_upto(rows(entries), "\n"@, n - 1);
        let e = entries[n - 1];
        reveal_strlit("\n");
        reveal_strlit("        '");
        reveal_strlit("',");
        let lead = if n == 1 {
            seq![' ', ' ', ' ', ' ', ' ', ' ', ' ', ' ', '\'']
        } else {
            seq!['\n', ' ', ' ', ' ', ' ', ' ', ' ', ' ', ' ', '\'']
        };
        let tail = seq!['\'', ','];
        let row = rows(entries)[n - 1];
        assert(row =~= seq![' ', ' ', ' ', ' ', ' ', ' ', ' ', ' ', '\''] + e + tail);
        if n == 1 {
            assert(x =~= head);
        }
        assert(now =~= x + lead + e + tail);
        let begin: int = (x.len() + lead.len()) as int;
        if last < x.len() {
            assert(x.subrange(j, j + p.len()) =~= now.subrange(j, j + p.len()));
            rows_begin_nothing(platform, entries, n - 1, j);
        } else if last < begin {
            assert(now[last] == lead[last - x.len()]);
            assert(forall|i: int| 0 <= i < lead.len() ==> lead[i] != '(');
        } else if last < begin + e.len() {
            if j < begin {
                assert(now[begin - 1] == '\'');
                char_at(now, p, j, begin - 1 - j);
            } else {
                assert(now.subrange(begin, begin + e.len()) =~= e);
                at_within(now, begin, begin + e.len(), p, j - begin);
            }
        } else {
            assert(now[last] == tail[last - begin - e.len()]);
        }
    }
}

/// Before a list that is written, either no list of that name is begun, or one is
/// that nothing closes.
spec fn leaves_open(lead: Seq<char>, p: Seq<char>) -> bool {
    find_from(lead, p, 0) matches Some(first) ==> forall|j: int|
        first <= j < lead.len() ==> lead[j] != ')'
}

/// A list that is written is found where it was written, and read back.
proof fn written_list(lead: Seq<char>, platform: Seq<char>, entries: Seq<Seq<char>>, tail: Seq<char>)
    requires
        nameable(platform),
        forall|k: int| 0 <= k < entries.len() ==> plain(#[trigger] entries[k]),
        forall|k: int| 0 <= k < entries.len() ==> lacks(#[trigger] entries[k], list_opening(platform)),
        leaves_open(lead, list_opening(platform)),
    ensures
        ({
            let list = sources_list(platform, entries);
            let whole = lead + list + tail;
            let end = lead.len() + list.len() - 1;
            &&& list_span(whole, platform) == Some((lead.len() as int, end))
            &&& listed(whole, platform) == Some(entries)
            &&& before(whole, lead.len() as int) == lead
            &&& after(whole, end + 1) == tail
        }),
{
    let p = list_opening(platform);
    let n = p.len() as int;
    let list = sources_list(platform, entries);
    let whole = lead + list + tail;
    let start = lead.len() as int;
    let end = start + list.len() - 1;
    list_is_read(lead, platform, entries, tail);
    list_begins(platform, entries);
    opening_facts(platform);
    find_from_is_first(whole, ")"@, start);
    quote_at(whole, end);
    assert(whole.subrange(start, start + n) =~= list.subrange(0, n));
    assert(is_at(whole, p, start));
    // No beginning behind the list's own.
    assert forall|j: int| start < j && j + n <= end implies !is_at(whole, p, j) by {
        if is_at(whole, p, j) {
            let o = j - start;
            assert(whole.subrange(start, start + list.len()) =~= list);
            at_within(whole, start, start + list.len(), p, o);
            reveal_strlit("\n    )");
            let head = opening(platform);
            let x = head + joined(rows(entries), "\n"@);
            let gap = seq!['\n', ' ', ' ', ' ', ' ', ')'];
            assert(source_lines(entries) =~= joined(rows(entries), "\n"@));
            assert(list =~= x + gap);
            char_at(list, p, o, n - 1);
            if o + n - 1 >= x.len() {
                assert(list[o + n - 1] == gap[o + n - 1 - x.len()]);
            } else {
                assert(x.subrange(o, o + n) =~= list.subrange(o, o + n));
                rows_begin_nothing(platform, entries, entries.len() as int, o);
            }
        }
    }
    // None that runs from what stands before into the list.
    assert forall|j: int| j < start && start < j + n && is_at(whole, p, j) implies false by {
        let k = j + n - 1 - start;
        char_at(whole, p, j, n - 1);
        char_at(whole, p, start, k);
    }
    find_from_is_first(lead, p, 0);
    let first = match find_from(lead, p, 0) {
        Some(first) => first,
        None => start,
    };
    assert forall|j: int| 0 <= j < first implies !is_at(whole, p, j) by {
        if is_at(whole, p, j) {
            assert(whole.subrange(0, start) =~= lead);
            at_within(whole, 0, start, p, j);
            assert(is_at(lead, p, j));
        }
    }
    assert(is_at(whole, p, first)) by {
        if first < start {
            assert(whole.subrange(0, start) =~= lead);
            at_within(whole, 0, start, p, first);
        }
    }
    first_stays(whole, whole, p, 0, first);
    assert forall|j: int| first <= j < end implies whole[j] != ')' by {
        if j < start {
            assert(whole[j] == lead[j]);
        } else {
            quote_at(whole, j);
        }
    }
    first_bracket(whole, first, end);
    let prior = before(whole, end);
    at_within(whole, 0, end, p, start);
    assert(start + n <= end) by {
        if end < start + n {
            char_at(whole, p, start, end - start);
        }
    }
    assert forall|j: int| start < j implies !is_at(prior, p, j) by {
        at_within(whole, 0, end, p, j);
    }
    last_is(prior, p, start);
}

/// The entries of an updated list can stand in it, and begin no list themselves.
proof fn merged_is_plain(
    content: Seq<char>,
    platform: Seq<char>,
    stems: Seq<Seq<char>>,
    files: Seq<Seq<char>>,
    existing: Seq<Seq<char>>,
    k: int,
)
    requires
        nameable(platform),
        forall|i: int| 0 <= i < files.len() ==> nameable(#[trigger] files[i]),
        existing.len() == 0 || listed(content, platform) == Some(existing),
        0 <= k < merged_entries(existing, stems, source_entries(platform, files)).len(),
    ensures
        plain(merged_entries(existing, stems, source_entries(platform, files))[k]),
        lacks(
            merged_entries(existing, stems, source_entries(platform, files))[k],
            list_opening(platform),
        ),
{
    let p = list_opening(platform);
    let new = source_entries(platform, files);
    let m = merged_entries(existing, stems, new);
    opening_facts(platform);
    assert(m.contains(m[k]));
    merged_list_holds_exactly(existing, stems, new, m[k]);
    if new.contains(m[k]) {
        let i = choose|i: int| 0 <= i < new.len() && new[i] == m[k];
        assert(nameable(files[i]));
        entry_is_plain(platform, files[i]);
        assert forall|j: int| !is_at(m[k], p, j) by {
            if is_at(m[k], p, j) {
                char_at(m[k], p, j, p.len() - 1);
            }
        }
    } else {
        let (start, end) = list_span(content, platform)->0;
        span_facts(content, platform);
        let block = content.subrange(start, end);
        let i = choose|i: int| 0 <= i < existing.len() && existing[i] == m[k];
        quoted_is_plain(block, 0, i);
        quoted_is_within(block, 0, i);
        let at = choose|at: int| 0 < at && #[trigger] holds(block, at, quoted_from(block, 0)[i]);
        let e = existing[i];
        assert forall|j: int| !is_at(e, p, j) by {
            if is_at(e, p, j) {
                assert(block.subrange(at, at + e.len()) == e);
                at_within(block, at, at + e.len(), p, j);
                at_within(content, start, end, p, at + j);
            }
        }
    }
}

/// The text stands in the other at a place.
spec fn holds(s: Seq<char>, at: int, e: Seq<char>) -> bool {
    0 <= at && at + e.len() <= s.len() && s.subrange(at, at + e.len()) == e
}

/// What stands between quotes stands in the text, behind its first character.
proof fn quoted_is_within(s: Seq<char>, i: int, k: int)
    requires
        0 <= i <= s.len(),
        0 <= k < quoted_from(s, i).len(),
    ensures
        exists|at: int| 0 < at && #[trigger] holds(s, at, quoted_from(s, i)[k]),
    decreases s.len() - i,
{
    quote_facts(s, i);
    let a = find_from(s, "'"@, i)->0;
    quote_facts(s, a + 1);
    let b = find_from(s, "'"@, a + 1)->0;
    if k == 0 {
        assert(s.subrange(a + 1, a + 1 + s.subrange(a + 1, b).len()) =~= s.subrange(a + 1, b));
        assert(holds(s, a + 1, quoted_from(s, i)[0]));
    } else {
        quoted_is_within(s, b + 1, k - 1);
        assert(quoted_from(s, i)[k] == quoted_from(s, b + 1)[k - 1]);
    }
}

proof fn list_begins(platform: Seq<char>, entries: Seq<Seq<char>>)
    ensures
        is_at(sources_list(platform, entries), list_opening(platform), 0),
{
    reveal_strlit(" = files(");
    reveal_strlit(" = files(\n");
    let list = sources_list(platform, entries);
    let p = list_opening(platform);
    assert(" = files(\n"@ =~= " = files("@ + seq!['\n']);
    assert(list.subrange(0, p.len() as int) =~= p);
}

/// What an update leaves before the list closes no list of that name.
proof fn lead_leaves_open(content: Seq<char>, platform: Seq<char>)
    requires
        nameable(platform),
    ensures
        (match list_span(content, platform) {
            Some((start, end)) => leaves_open(before(content, start), list_opening(platform)),
            None => leaves_open(content, list_opening(platform)),
        }),
{
    let p = list_opening(platform);
    match list_span(content, platform) {
        Some((start, end)) => {
            span_facts(content, platform);
            let lead = before(content, start);
            find_from_is_first(lead, p, 0);
            if let Some(first) = find_from(lead, p, 0) {
                at_within(content, 0, start, p, first);
                assert(find_from(content, p, 0)->0 <= first);
                assert forall|j: int| first <= j < lead.len() implies lead[j] != ')' by {
                    assert(lead[j] == content[j]);
                }
            }
        },
        None => {
            begun_is_closed(content, platform);
            if let Some(first) = find_from(content, p, 0) {
                find_from_is_first(content, p, 0);
                find_from_is_first(content, ")"@, first);
                assert forall|j: int| first <= j < content.len() implies content[j] != ')' by {
                    quote_at(content, j);
                }
            }
        },
    }
}

/// What a build file lists for a platform; nothing where it has no list.
pub open spec fn listed_or_none(content: Seq<char>, platform: Seq<char>) -> Seq<Seq<char>> {
    match listed(content, platform) {
        Some(entries) => entries,
        None => Seq::empty(),
    }
}

/// An updated build file: what stands before the list, the list, and what stands
/// behind it.
proof fn updated_parts(
    content: Seq<char>,
    platform: Seq<char>,
    stems: Seq<Seq<char>>,
    files: Seq<Seq<char>>,
) -> (parts: (Seq<char>, Seq<char>))
    requires
        nameable(platform),
        forall|i: int| 0 <= i < files.len() ==> nameable(#[trigger] files[i]),
    ensures
        ({
            let m = merged_entries(
                listed_or_none(content, platform),
                stems,
                source_entries(platform, files),
            );
            let list = sources_list(platform, m);
            let once = upserted(content, platform, stems, files);
            let end = parts.0.len() + list.len() - 1;
            &&& once == parts.0 + list + parts.1
            &&& list_span(once, platform) == Some((parts.0.len() as int, end))
            &&& listed(once, platform) == Some(m)
            &&& before(once, parts.0.len() as int) == parts.0
            &&& after(once, end + 1) == parts.1
        }),
{
    let existing = listed_or_none(content, platform);
    let m = merged_entries(existing, stems, source_entries(platform, files));
    let (lead, tail) = match list_span(content, platform) {
        Some((start, end)) => (before(content, start), after(content, end + 1)),
        None => (content, "\n"@),
    };
    assert forall|k: int| 0 <= k < m.len() implies plain(#[trigger] m[k]) by {
        merged_is_plain(content, platform, stems, files, existing, k);
    }
    assert forall|k: int| 0 <= k < m.len() implies lacks(#[trigger] m[k], list_opening(platform)) by {
        merged_is_plain(content, platform, stems, files, existing, k);
    }
    lead_leaves_open(content, platform);
    written_list(lead, platform, m, tail);
    (lead, tail)
}

/// A list that was brought up to date is read back as the new files and, of what the
/// build file listed before, everything but the stubs that they supersede; a list
/// that was not there is read back as the new files.
pub proof fn updated_list_is_read_back(
    content: Seq<char>,
    platform: Seq<char>,
    stems: Seq<Seq<char>>,
    files: Seq<Seq<char>>,
)
    requires
        nameable(platform),
        forall|i: int| 0 <= i < files.len() ==> nameable(#[trigger] files[i]),
    ensures
        listed(upserted(content, platform, stems, files), platform) == Some(
            merged_entries(
                listed_or_none(content, platform),
                stems,
                source_entries(platform, files),
            ),
        ),
{
    let _ = updated_parts(content, platform, stems, files);
}

/// Where a build file has no list for a platform, one is appended to it.
pub proof fn appended_list_keeps_the_rest(
    content: Seq<char>,
    platform: Seq<char>,
    stems: Seq<Seq<char>>,
    files: Seq<Seq<char>>,
)
    requires
        listed(content, platform) is None,
    ensures
        before(upserted(content, platform, stems, files), content.len() as int) == content,
{
    assert(before(upserted(content, platform, stems, files), content.len() as int) =~= content);
}

/// To bring a build file up to date a second time changes nothing in it.
pub proof fn updating_again_changes_nothing(
    content: Seq<char>,
    platform: Seq<char>,
    stems: Seq<Seq<char>>,
    files: Seq<Seq<char>>,
)
    requires
        nameable(platform),
        forall|i: int| 0 <= i < files.len() ==> nameable(#[trigger] files[i]),
    ensures
        upserted(upserted(content, platform, stems, files), platform, stems, files) == upserted(
            content,
            platform,
            stems,
            files,
        ),
{
    let _ = updated_parts(content, platform, stems, files);
    merging_again_changes_nothing(
        listed_or_none(content, platform),
        stems,
        source_entries(platform, files),
    );
}

} // verus!
