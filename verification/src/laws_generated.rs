//! What the generated sources, headers and lists hold: laws over the texts that are
//! written for a platform.

use vstd::prelude::*;

use crate::coverage::{first_part, implements_stem};
use crate::cpp::HalContractMethodView;
use crate::generate::{
    camel, camel_upto, class_closing, class_opening, content_of, impl_names, is_stub_text, module_header,
    module_header_clean, override_lines, placeholder_source, replaceable, source_lines, sources_list,
    stale_upto, stub_banner, stub_methods, superseded,
};
use crate::laws_lists::{arguments, can_be_quoted, in_quotes};
use crate::laws_text::{
    has_ink, is_blank, separator_parts_pieces, text_without_separator_is_one_piece, trimmed_has_the_ink,
    trimming_takes_the_blanks_off,
};
use crate::text::{
    after_last, begins, char_uppercase, decimal, joined, joined_upto, pieces, trimmed, whitespace,
};

verus! {

// ---------------------------------------------------------------------------
// Sources
// ---------------------------------------------------------------------------

/// The method gives nothing back.
pub open spec fn gives_nothing(m: HalContractMethodView) -> bool {
    !has_ink(m.return_type) || trimmed(m.return_type) == "void"@
}

/// A pending definition of a method: its signature with the class before the name, a
/// note, a value where it gives one back, and the end.
pub open spec fn definition(class: Seq<char>, platform: Seq<char>, m: HalContractMethodView) -> Seq<char> {
    trimmed(m.return_type) + " "@ + class + "::"@ + m.name + "("@ + m.params + ") {\n    /* TODO: implement for "@
        + platform + " */\n"@ + (if gives_nothing(m) {
        Seq::empty()
    } else {
        "    return {};\n"@
    }) + "}\n\n"@
}

proof fn definitions_upto(
    head: Seq<char>,
    class: Seq<char>,
    methods: Seq<HalContractMethodView>,
    platform: Seq<char>,
    n: int,
)
    requires
        0 <= n <= methods.len(),
    ensures
        stub_methods(head, class, methods, platform, n) == methods.take(n).fold_left(
            head,
            |done: Seq<char>, m: HalContractMethodView| done + definition(class, platform, m),
        ),
    decreases n,
{
    if n > 0 {
        definitions_upto(head, class, methods, platform, n - 1);
        assert(methods.take(n).drop_last() =~= methods.take(n - 1));
        let m = methods[n - 1];
        trimmed_has_the_ink(m.return_type);
        assert(definition(class, platform, m) =~= crate::generate::stub_method(class, m, platform));
    }
}

/// A pending source has the platform's mark and the interface's header on top, and
/// below one definition for each method of the contract, in order: with the contract's
/// signature, and with a value where the method gives one back.
pub proof fn pending_source_defines_the_contract(
    stem: Seq<char>,
    class: Seq<char>,
    methods: Seq<HalContractMethodView>,
    platform: Seq<char>,
)
    ensures
        placeholder_source(stem, class, methods, platform) == methods.fold_left(
            stub_banner(stem + ".cpp"@, "TODO bodies"@, platform) + "#include \""@ + stem + ".hpp\"\n\n"@,
            |done: Seq<char>, m: HalContractMethodView| done + definition(class, platform, m),
        ),
{
    let head = stub_banner(stem + ".cpp"@, "TODO bodies"@, platform) + "#include \""@ + stem + ".hpp\"\n\n"@;
    definitions_upto(head, class, methods, platform, methods.len() as int);
    assert(methods.take(methods.len() as int) =~= methods);
}

/// The declaration of a method in the class that implements it.
pub open spec fn declaration(m: HalContractMethodView) -> Seq<char> {
    "    "@ + trimmed(m.return_type) + " "@ + m.name + "("@ + m.params + ") override;\n\n"@
}

proof fn declarations_upto(head: Seq<char>, methods: Seq<HalContractMethodView>, n: int)
    requires
        0 <= n <= methods.len(),
    ensures
        override_lines(head, methods, n) == methods.take(n).filter(
            |m: HalContractMethodView| m.name.len() == 0 || m.name[0] != '~',
        ).fold_left(head, |done: Seq<char>, m: HalContractMethodView| done + declaration(m)),
    decreases n,
{
    reveal(Seq::filter);
    let plain = |m: HalContractMethodView| m.name.len() == 0 || m.name[0] != '~';
    let write = |done: Seq<char>, m: HalContractMethodView| done + declaration(m);
    if n > 0 {
        declarations_upto(head, methods, n - 1);
        assert(methods.take(n).drop_last() =~= methods.take(n - 1));
        let m = methods[n - 1];
        assert(methods.take(n).last() == m);
        let done = methods.take(n - 1).filter(plain);
        reveal_strlit("~");
        assert(begins(m.name, "~"@) <==> !plain(m)) by {
            if m.name.len() > 0 {
                assert(m.name.subrange(0, 1) =~= seq![m.name[0]]);
                assert("~"@ =~= seq!['~']);
                assert(seq![m.name[0]][0] == m.name[0]);
            }
        }
        if plain(m) {
            assert(done.push(m).drop_last() =~= done);
            assert(done.push(m).fold_left(head, write) == write(done.fold_left(head, write), m));
        }
    } else {
        assert(methods.take(0).filter(plain) =~= Seq::empty());
    }
}

/// A header declares each method of the contract but its destructors, in order and
/// with the contract's signature, between the class's opening and its private part; a
/// pending one has the platform's mark on top.
pub proof fn header_declares_the_contract(
    stem: Seq<char>,
    class: Seq<char>,
    base: Seq<char>,
    methods: Seq<HalContractMethodView>,
    platform: Seq<char>,
)
    ensures
        ({
            let declared = methods.filter(|m: HalContractMethodView| m.name.len() == 0 || m.name[0] != '~');
            let write = |done: Seq<char>, m: HalContractMethodView| done + declaration(m);
            let opening = class_opening(stem, class, base, platform);
            &&& module_header_clean(stem, class, base, methods, platform) == declared.fold_left(opening, write)
                + class_closing("Platform state"@)
            &&& module_header(stem, class, base, methods, platform) == declared.fold_left(
                stub_banner(class + ".hpp"@, "state + TODO bodies"@, platform) + opening,
                write,
            ) + class_closing("TODO: platform state"@)
        }),
{
    let n = methods.len() as int;
    let opening = class_opening(stem, class, base, platform);
    declarations_upto(opening, methods, n);
    declarations_upto(stub_banner(class + ".hpp"@, "state + TODO bodies"@, platform) + opening, methods, n);
    assert(methods.take(n) =~= methods);
}

// ---------------------------------------------------------------------------
// Names
// ---------------------------------------------------------------------------

proof fn camel_concat(a: Seq<Seq<char>>, b: Seq<Seq<char>>, n: int)
    requires
        0 <= n <= b.len(),
    ensures
        camel_upto(a + b, a.len() + n) == camel_upto(a, a.len() as int) + camel_upto(b, n),
    decreases n,
{
    if n > 0 {
        camel_concat(a, b, n - 1);
        assert((a + b)[a.len() + n - 1] == b[n - 1]);
        let x = camel_upto(a, a.len() as int);
        let y = camel_upto(b, n - 1);
        if b[n - 1].len() > 0 {
            let z = crate::generate::capitalized(b[n - 1]);
            assert(x + y + z =~= x + (y + z));
        }
    } else {
        camel_front(a, b, a.len() as int);
        assert(camel_upto(a, a.len() as int) + Seq::<char>::empty() =~= camel_upto(a, a.len() as int));
    }
}

proof fn camel_front(a: Seq<Seq<char>>, b: Seq<Seq<char>>, n: int)
    requires
        0 <= n <= a.len(),
    ensures
        camel_upto(a + b, n) == camel_upto(a, n),
    decreases n,
{
    if n > 0 {
        camel_front(a, b, n - 1);
        assert((a + b)[n - 1] == a[n - 1]);
    }
}

/// A class name is made word by word: an underscore parts two words and is dropped, and
/// each word begins with a capital and goes on as it was.
pub proof fn class_name_is_made_word_by_word(a: Seq<char>, b: Seq<char>)
    ensures
        camel(a + seq!['_'] + b) == camel(a) + camel(b),
        !a.contains('_') && a.len() > 0 ==> camel(a) == char_uppercase(a[0]) + a.subrange(1, a.len() as int),
        a.len() == 0 ==> camel(a).len() == 0,
{
    separator_parts_pieces(a, '_', b);
    let p = pieces(a, '_');
    let q = pieces(b, '_');
    camel_concat(p, q, q.len() as int);
    if !a.contains('_') {
        text_without_separator_is_one_piece(a, '_');
        reveal_with_fuel(camel_upto, 2);
        assert(Seq::<char>::empty() + crate::generate::capitalized(a) =~= crate::generate::capitalized(a));
    }
}

/// The first pair of names has the platform's own name, the others a number behind it;
/// header and source of a pair differ only in their endings, and the class is named
/// after both parts.
pub proof fn names_of_a_pair_belong_together(iface: Seq<char>, plat: Seq<char>, n: int)
    requires
        n >= 1,
    ensures
        ({
            let variant = if n == 1 {
                plat
            } else {
                plat + seq!['_'] + decimal(n)
            };
            let (class, source, header) = impl_names(iface, plat, n);
            &&& class == camel(iface) + camel(variant)
            &&& source == iface + seq!['_'] + variant + ".cpp"@
            &&& header == iface + seq!['_'] + variant + ".hpp"@
        }),
{
    reveal_strlit("_");
    assert("_"@ =~= seq!['_']);
}

/// A name can be written exactly where no file has it, or the first that does can be
/// read and is pending.
pub proof fn only_pending_files_are_replaced(files: Seq<(Seq<char>, Option<Seq<char>>)>, name: Seq<char>, k: int)
    requires
        0 <= k <= files.len(),
        forall|j: int| 0 <= j < k ==> (#[trigger] files[j]).0 != name,
        k < files.len() ==> files[k].0 == name,
    ensures
        k == files.len() ==> replaceable(files, name),
        k < files.len() ==> (replaceable(files, name) <==> (files[k].1 matches Some(c) && is_stub_text(c))),
{
    first_content(files, name, 0, k);
}

proof fn first_content(files: Seq<(Seq<char>, Option<Seq<char>>)>, name: Seq<char>, i: int, k: int)
    requires
        0 <= i <= k <= files.len(),
        forall|j: int| i <= j < k ==> (#[trigger] files[j]).0 != name,
        k < files.len() ==> files[k].0 == name,
    ensures
        k == files.len() ==> content_of(files, name, i) is None,
        k < files.len() ==> content_of(files, name, i) == Some(files[k].1),
    decreases k - i,
{
    if i < k {
        assert(files[i].0 != name);
        first_content(files, name, i + 1, k);
    }
}

proof fn stale_ones(files: Seq<(Seq<char>, Option<Seq<char>>)>, iface: Seq<char>, n: int)
    requires
        0 <= n <= files.len(),
    ensures
        stale_upto(files, iface, n) == files.take(n).filter(
            |f: (Seq<char>, Option<Seq<char>>)|
                implements_stem(first_part(f.0), iface) && (f.1 matches Some(c) && is_stub_text(c)),
        ).map_values(|f: (Seq<char>, Option<Seq<char>>)| f.0),
    decreases n,
{
    reveal(Seq::filter);
    let stale = |f: (Seq<char>, Option<Seq<char>>)|
        implements_stem(first_part(f.0), iface) && (f.1 matches Some(c) && is_stub_text(c));
    let name = |f: (Seq<char>, Option<Seq<char>>)| f.0;
    if n > 0 {
        stale_ones(files, iface, n - 1);
        assert(files.take(n).drop_last() =~= files.take(n - 1));
        assert(files.take(n).last() == files[n - 1]);
        let done = files.take(n - 1).filter(stale);
        assert(done.push(files[n - 1]).map_values(name) =~= done.map_values(name).push(files[n - 1].0));
    } else {
        assert(files.take(0).filter(stale).map_values(name) =~= Seq::empty());
    }
}

/// Stale are exactly the files of the interface that can be read and are pending, in
/// order.
pub proof fn stale_files_are_the_pending_ones(files: Seq<(Seq<char>, Option<Seq<char>>)>, iface: Seq<char>)
    ensures
        stale_upto(files, iface, files.len() as int) == files.filter(
            |f: (Seq<char>, Option<Seq<char>>)|
                implements_stem(first_part(f.0), iface) && (f.1 matches Some(c) && is_stub_text(c)),
        ).map_values(|f: (Seq<char>, Option<Seq<char>>)| f.0),
{
    stale_ones(files, iface, files.len() as int);
    assert(files.take(files.len() as int) =~= files);
}

// ---------------------------------------------------------------------------
// Lists
// ---------------------------------------------------------------------------

proof fn trimming_a_row(e: Seq<char>, text: Seq<char>, lead: Seq<char>)
    requires
        is_blank(lead),
        text == lead + in_quotes(e),
    ensures
        trimmed(text) == in_quotes(e),
{
    let q = in_quotes(e);
    trimming_takes_the_blanks_off(text);
    let (a, b) = choose|a: Seq<char>, b: Seq<char>|
        is_blank(a) && is_blank(b) && text == #[trigger] (a + trimmed(text) + b);
    let t = trimmed(text);
    assert(!whitespace('\''));
    assert(text.last() == '\'' && text[lead.len() as int] == '\'');
    assert(b.len() == 0) by {
        if b.len() > 0 {
            assert(text.last() == b[b.len() - 1]);
        }
    }
    assert(a.len() <= lead.len()) by {
        if a.len() > lead.len() {
            assert(text[lead.len() as int] == a[lead.len() as int]);
        }
    }
    if a.len() < lead.len() {
        assert(text[a.len() as int] == t[0]);
        assert(text[a.len() as int] == lead[a.len() as int]);
    }
    assert(t =~= text.subrange(lead.len() as int, text.len() as int));
    assert(t =~= q);
}

/// What stands before a row of a list.
spec fn margin() -> Seq<char> {
    seq!['\n', ' ', ' ', ' ', ' ', ' ', ' ', ' ', ' ']
}

spec fn rows_of(entries: Seq<Seq<char>>) -> Seq<Seq<char>> {
    Seq::new(entries.len(), |i: int| "        '"@ + entries[i] + "',"@)
}

proof fn rows_stand_apart(entries: Seq<Seq<char>>, n: int)
    requires
        0 <= n <= entries.len(),
        forall|i: int| 0 <= i < entries.len() ==> can_be_quoted(#[trigger] entries[i]),
    ensures
        n > 0 ==> pieces(seq!['\n'] + joined_upto(rows_of(entries), "\n"@, n), ',') == Seq::new(
            n as nat,
            |i: int| margin() + in_quotes(entries[i]),
        ).push(Seq::empty()),
    decreases n,
{
    reveal_strlit("\n");
    reveal_strlit("        '");
    reveal_strlit("',");
    let none = Seq::<char>::empty();
    if n > 0 {
        let e = entries[n - 1];
        assert(can_be_quoted(e));
        let row = margin() + in_quotes(e);
        assert(!whitespace(','));
        assert forall|j: int| 0 <= j < row.len() implies row[j] != ',' by {
            if j < 9 {
                assert(row[j] == margin()[j]);
            } else if 9 < j < row.len() - 1 {
                assert(row[j] == e[j - 10]);
            }
        }
        text_without_separator_is_one_piece(row, ',');
        text_without_separator_is_one_piece(none, ',');
        let text = seq!['\n'] + joined_upto(rows_of(entries), "\n"@, n);
        let want = Seq::new(n as nat, |i: int| margin() + in_quotes(entries[i]));
        separator_parts_pieces(row, ',', none);
        if n == 1 {
            assert(text =~= row + seq![','] + none);
            assert(want.push(none) =~= seq![row] + seq![none]);
        } else {
            rows_stand_apart(entries, n - 1);
            let done = seq!['\n'] + joined_upto(rows_of(entries), "\n"@, n - 1);
            let short = Seq::new((n - 1) as nat, |i: int| margin() + in_quotes(entries[i]));
            let body = done.drop_last();
            rows_end(entries, n - 1);
            assert(done =~= body + seq![','] + none);
            separator_parts_pieces(body, ',', none);
            assert(pieces(body, ',') =~= short) by {
                assert((pieces(body, ',') + seq![none]).drop_last() =~= pieces(body, ','));
                assert(short.push(none).drop_last() =~= short);
            }
            let tail = row + seq![','] + none;
            assert(text =~= body + seq![','] + tail);
            separator_parts_pieces(body, ',', tail);
            assert(want.push(none) =~= short + (seq![row] + seq![none]));
        }
    }
}

proof fn rows_end(entries: Seq<Seq<char>>, n: int)
    requires
        0 < n <= entries.len(),
    ensures
        joined_upto(rows_of(entries), "\n"@, n).len() > 0,
        joined_upto(rows_of(entries), "\n"@, n).last() == ',',
{
    reveal_strlit("',");
    let row = rows_of(entries)[n - 1];
    assert(row.last() == ',');
}

/// A source list is a call that reads back: its arguments are the entries in quotes,
/// each of them and in order, with a comma behind the last one too.
pub proof fn source_list_is_read_back(platform: Seq<char>, entries: Seq<Seq<char>>)
    requires
        entries.len() > 0,
        forall|i: int| 0 <= i < entries.len() ==> can_be_quoted(#[trigger] entries[i]),
    ensures
        exists|text: Seq<char>|
            sources_list(platform, entries) == #[trigger] ("hal_impl_"@ + platform + "_sources = files("@ + text + ")"@)
                && arguments(text) == entries.map_values(|e: Seq<char>| in_quotes(e)).push(Seq::empty()),
{
    reveal_strlit("_sources");
    reveal_strlit(" = files(\n");
    reveal_strlit("_sources = files(");
    reveal_strlit("\n    )");
    reveal_strlit(")");
    let n = entries.len() as int;
    let rows = seq!['\n'] + joined(rows_of(entries), "\n"@);
    let gap = seq!['\n', ' ', ' ', ' ', ' '];
    let text = rows + gap;
    assert(source_lines(entries) =~= joined(rows_of(entries), "\n"@));
    assert("_sources"@ + " = files(\n"@ =~= "_sources = files("@ + seq!['\n']);
    assert("\n    )"@ =~= gap + ")"@);
    assert(sources_list(platform, entries) =~= "hal_impl_"@ + platform + "_sources = files("@ + text + ")"@);
    rows_stand_apart(entries, n);
    rows_end(entries, n);
    let body = rows.drop_last();
    let none = Seq::<char>::empty();
    assert(rows =~= body + seq![','] + none);
    text_without_separator_is_one_piece(none, ',');
    separator_parts_pieces(body, ',', none);
    let want = Seq::new(n as nat, |i: int| margin() + in_quotes(entries[i]));
    assert(pieces(body, ',') =~= want) by {
        assert((pieces(body, ',') + seq![none]).drop_last() =~= pieces(body, ','));
        assert(want.push(none).drop_last() =~= want);
    }
    assert(forall|j: int| 0 <= j < gap.len() ==> gap[j] == ' ' || gap[j] == '\n');
    text_without_separator_is_one_piece(gap, ',');
    assert(text =~= body + seq![','] + gap);
    separator_parts_pieces(body, ',', gap);
    let found = arguments(text);
    let goal = entries.map_values(|e: Seq<char>| in_quotes(e)).push(Seq::empty());
    assert(pieces(text, ',').len() == n + 1);
    assert forall|i: int| 0 <= i <= n implies found[i] == goal[i] by {
        if i < n {
            assert(pieces(text, ',')[i] == want[i]);
            assert(is_blank(margin()));
            trimming_a_row(entries[i], want[i], margin());
        } else {
            assert(pieces(text, ',')[n] == gap);
            trimmed_has_the_ink(gap);
            assert(trimmed(gap) =~= none);
        }
    }
    assert(found =~= goal);
}

/// An entry is dropped from a list for an interface exactly where its file is the
/// placeholder of a stem that belongs to it.
pub proof fn placeholder_gives_way_to_its_interface(entry: Seq<char>, stems: Seq<Seq<char>>)
    ensures
        superseded(entry, stems) <==> exists|x: Seq<char>, i: int|
            0 <= i < stems.len() && after_last(entry, "/"@) == x + "_stub.cpp"@ && #[trigger] implements_stem(
                x,
                stems[i],
            ),
{
    reveal_strlit("_stub.cpp");
    let base = after_last(entry, "/"@);
    let end = "_stub.cpp"@;
    if superseded(entry, stems) {
        let x = base.subrange(0, base.len() - end.len());
        assert(base =~= x + end);
        let i = choose|i: int| 0 <= i < stems.len() && implements_stem(x, #[trigger] stems[i]);
        assert(implements_stem(x, stems[i]));
    }
    if exists|x: Seq<char>, i: int|
        0 <= i < stems.len() && base == x + end && #[trigger] implements_stem(x, stems[i]) {
        let (x, i) = choose|x: Seq<char>, i: int|
            0 <= i < stems.len() && base == x + end && #[trigger] implements_stem(x, stems[i]);
        assert(base.subrange(0, base.len() - end.len()) =~= x);
        assert(base.subrange(base.len() - end.len(), base.len() as int) =~= end);
    }
}

} // verus!
