//! What holds of the library as a whole: laws that relate its functions, stated
//! over the models that their contracts speak of.

use vstd::prelude::*;

use crate::contract::{
    changes_upto, contract_diff, method_from, method_named, method_names, names_without, signature_differs,
    sorted_names, summary_methods, HalContractChangeView,
};
use crate::coverage::{
    coverage_of, drifts, gaps_upto, holds_type, impl_from, is_qualifier, name_end,
    param_type, param_words, starts_with_name,
};
use crate::cpp::{HalContractMethodView, HalImplMethodView};
use crate::docs::{plan_steps, HalDocLintFileView};
use crate::generate::{
    class_closing, class_opening, content_of, file_names, first_free, impl_file, impl_names, is_stub_text,
    module_header, module_header_clean, override_line, override_lines, placeholder_source, replaceable,
    stale_upto, stub_banner, stub_methods, token, SPIRE_HAL_STUB_SENTINEL,
};
use crate::graph::{matching_nodes, node_ids, query_result, touching_edges, HalGraphView};
use crate::migration::{
    conflicts_upto, has_canonical, has_legacy, layout_of, leftover_issues, misplaced, moves_upto, plan_of,
    structure_issues, structure_of, HalLayout,
};
use crate::project::{exists_at, ProjectTreeView};
use crate::python::is_artifact;
use crate::rust_contract::{absent, absent_upto, drift_of, drift_upto, methods_of, required_traits, trait_impls};
use crate::spire_app_scaffold::crate_name;
use crate::text::{
    after, distinct, distinct_keeps_members, ends, find_from, find_from_is_first, has_text, is_at, lead_bounds, less, less_total, lowercase, push_contains,
    replaced, replaced_from, sorted, sorted_is_ordered_permutation, tail_bounds, trimmed,
};

verus! {

// ---------------------------------------------------------------------------
// Texts
// ---------------------------------------------------------------------------

proof fn text_stays(a: Seq<char>, b: Seq<char>, p: Seq<char>)
    requires
        has_text(a, p),
    ensures
        has_text(a + b, p),
{
    let i = choose|i: int| is_at(a, p, i);
    assert((a + b).subrange(i, i + p.len()) =~= a.subrange(i, i + p.len()));
    assert(is_at(a + b, p, i));
}

/// Whether the text can stand across the seam of two texts: not where one of the
/// two characters at the seam does not occur in it.
spec fn parted(a: Seq<char>, b: Seq<char>, p: Seq<char>) -> bool {
    a.len() == 0 || b.len() == 0 || !p.contains(a.last()) || !p.contains(b[0])
}

proof fn parted_lacks(a: Seq<char>, b: Seq<char>, p: Seq<char>)
    requires
        !has_text(a, p),
        !has_text(b, p),
        p.len() > 0,
        parted(a, b, p),
    ensures
        !has_text(a + b, p),
{
    let s = a + b;
    if has_text(s, p) {
        let i = choose|i: int| is_at(s, p, i);
        let n = p.len();
        if i + n <= a.len() {
            assert(a.subrange(i, i + n) =~= s.subrange(i, i + n));
            assert(is_at(a, p, i));
        } else if i >= a.len() {
            let k = i - a.len();
            assert(b.subrange(k, k + n) =~= s.subrange(i, i + n));
            assert(is_at(b, p, k));
        } else {
            let k = a.len() - i;
            assert(s.subrange(i, i + n)[k - 1] == s[a.len() - 1]);
            assert(s.subrange(i, i + n)[k] == s[a.len() as int]);
            assert(p[k - 1] == a.last());
            assert(p[k] == b[0]);
        }
    }
}

proof fn without_char_lacks(s: Seq<char>, p: Seq<char>, c: char)
    requires
        p.contains(c),
        !s.contains(c),
    ensures
        !has_text(s, p),
{
    if has_text(s, p) {
        let i = choose|i: int| is_at(s, p, i);
        let k = choose|k: int| 0 <= k < p.len() && p[k] == c;
        assert(s.subrange(i, i + p.len())[k] == s[i + k]);
        assert(s[i + k] == c);
    }
}

proof fn part_lacks(s: Seq<char>, p: Seq<char>, from: int, to: int)
    requires
        !has_text(s, p),
        0 <= from <= to <= s.len(),
    ensures
        !has_text(s.subrange(from, to), p),
{
    let t = s.subrange(from, to);
    if has_text(t, p) {
        let i = choose|i: int| is_at(t, p, i);
        assert(s.subrange(from + i, from + i + p.len()) =~= t.subrange(i, i + p.len()));
        assert(is_at(s, p, from + i));
    }
}

proof fn trimmed_lacks(s: Seq<char>, p: Seq<char>)
    requires
        !has_text(s, p),
    ensures
        !has_text(trimmed(s), p),
{
    lead_bounds(s, None, 0);
    let a = crate::text::trim_lead(s, None);
    let k = crate::text::lead(s, None, 0);
    assert(a =~= s.subrange(k, s.len() as int));
    part_lacks(s, p, k, s.len() as int);
    tail_bounds(a, None, a.len() as int);
    part_lacks(a, p, 0, crate::text::tail(a, None, a.len() as int));
}

// ---------------------------------------------------------------------------
// Stubs
// ---------------------------------------------------------------------------

proof fn banner_is_marked(subject: Seq<char>, what: Seq<char>, platform: Seq<char>)
    ensures
        is_stub_text(stub_banner(subject, what, platform)),
{
    let mark = SPIRE_HAL_STUB_SENTINEL@;
    reveal_strlit("// ");
    let head = "// "@ + mark;
    assert(head.subrange(3, 3int + mark.len()) =~= mark);
    assert(is_at(head, mark, 3));
    let s = stub_banner(subject, what, platform);
    assert(s.subrange(0, head.len() as int) =~= head);
    assert(s =~= head + s.subrange(head.len() as int, s.len() as int));
    text_stays(head, s.subrange(head.len() as int, s.len() as int), mark);
}

proof fn stub_methods_stay_marked(
    head: Seq<char>,
    class_name: Seq<char>,
    methods: Seq<HalContractMethodView>,
    platform: Seq<char>,
    n: int,
)
    requires
        is_stub_text(head),
    ensures
        is_stub_text(stub_methods(head, class_name, methods, platform, n)),
    decreases n,
{
    if n > 0 {
        stub_methods_stay_marked(head, class_name, methods, platform, n - 1);
        text_stays(
            stub_methods(head, class_name, methods, platform, n - 1),
            crate::generate::stub_method(class_name, methods[n - 1], platform),
            SPIRE_HAL_STUB_SENTINEL@,
        );
    }
}

proof fn override_lines_stay_marked(
    head: Seq<char>,
    methods: Seq<HalContractMethodView>,
    n: int,
)
    requires
        is_stub_text(head),
    ensures
        is_stub_text(override_lines(head, methods, n)),
    decreases n,
{
    if n > 0 {
        override_lines_stay_marked(head, methods, n - 1);
        text_stays(
            override_lines(head, methods, n - 1),
            override_line(methods[n - 1]),
            SPIRE_HAL_STUB_SENTINEL@,
        );
    }
}

/// Every generated placeholder is recognised as a pending stub: both files of a
/// module pair carry the mark, whatever they are generated from.
pub proof fn generated_pair_is_pending(
    header_stem: Seq<char>,
    impl_class: Seq<char>,
    base_class: Seq<char>,
    methods: Seq<HalContractMethodView>,
    platform: Seq<char>,
)
    ensures
        is_stub_text(module_header(header_stem, impl_class, base_class, methods, platform)),
        is_stub_text(placeholder_source(header_stem, impl_class, methods, platform)),
{
    let mark = SPIRE_HAL_STUB_SENTINEL@;
    let a = stub_banner(impl_class + ".hpp"@, "state + TODO bodies"@, platform);
    banner_is_marked(impl_class + ".hpp"@, "state + TODO bodies"@, platform);
    let opening = class_opening(header_stem, impl_class, base_class, platform);
    text_stays(a, opening, mark);
    let n = methods.len() as int;
    override_lines_stay_marked(a + opening, methods, n);
    text_stays(
        override_lines(a + opening, methods, n),
        class_closing("TODO: platform state"@),
        mark,
    );
    let b = stub_banner(header_stem + ".cpp"@, "TODO bodies"@, platform);
    banner_is_marked(header_stem + ".cpp"@, "TODO bodies"@, platform);
    text_stays(b, "#include \""@, mark);
    text_stays(b + "#include \""@, header_stem, mark);
    text_stays(b + "#include \""@ + header_stem, ".hpp\"\n\n"@, mark);
    stub_methods_stay_marked(
        b + "#include \""@ + header_stem + ".hpp\"\n\n"@,
        impl_class,
        methods,
        platform,
        n,
    );
}

/// The word holds none of the characters at which the fixed parts of a header begin
/// and end.
spec fn seamless(p: Seq<char>) -> bool {
    &&& p.len() > 0
    &&& !p.contains(' ')
    &&& !p.contains('.')
    &&& !p.contains(':')
    &&& !p.contains('(')
    &&& !p.contains(')')
    &&& !p.contains('~')
    &&& !p.contains('/')
    &&& !p.contains('\n')
}

/// The text is without the word and ends in a character that is not in it.
spec fn shut(s: Seq<char>, p: Seq<char>) -> bool {
    &&& !has_text(s, p)
    &&& s.len() > 0
    &&& !p.contains(s.last())
}

/// A fixed text that no part of the word can run into.
spec fn fixed(s: Seq<char>, p: Seq<char>) -> bool {
    &&& !has_text(s, p)
    &&& s.len() > 0
    &&& !p.contains(s[0])
    &&& !p.contains(s.last())
}

proof fn shut_joined(s: Seq<char>, x: Seq<char>, f: Seq<char>, p: Seq<char>)
    requires
        p.len() > 0,
        shut(s, p),
        !has_text(x, p),
        fixed(f, p),
    ensures
        shut(s + x + f, p),
{
    parted_lacks(s, x, p);
    parted_lacks(s + x, f, p);
    assert((s + x + f).last() == f.last());
}

proof fn nothing_lacks(p: Seq<char>)
    requires
        p.len() > 0,
    ensures
        !has_text(Seq::<char>::empty(), p),
{
    if has_text(Seq::<char>::empty(), p) {
        let i = choose|i: int| is_at(Seq::<char>::empty(), p, i);
    }
}

/// What is told apart by one of its characters, which none of the fixed texts of a
/// header holds.
spec fn telling(p: Seq<char>, c: char) -> bool {
    &&& seamless(p)
    &&& p.contains(c)
    &&& c == '-' || c == 'T' || c == '#'
}

proof fn words_are_telling()
    ensures
        telling(SPIRE_HAL_STUB_SENTINEL@, '-'),
        telling("TODO"@, 'T'),
        telling("#pragma"@, '#'),
        telling("#include"@, '#'),
{
    reveal_strlit("SPIRE-HAL-STUB");
    reveal_strlit("TODO");
    reveal_strlit("#pragma");
    reveal_strlit("#include");
    assert(SPIRE_HAL_STUB_SENTINEL@[5] == '-');
    assert("TODO"@[0] == 'T');
    assert("#pragma"@[0] == '#');
    assert("#include"@[0] == '#');
}

proof fn override_line_keeps_shut(s: Seq<char>, m: HalContractMethodView, p: Seq<char>, c: char)
    requires
        telling(p, c),
        shut(s, p),
        !method_spells(m, p),
    ensures
        shut(s + override_line(m), p),
{
    reveal_strlit("    ");
    reveal_strlit(" ");
    reveal_strlit("(");
    reveal_strlit(") override;\n\n");
    without_char_lacks("    "@, p, c);
    without_char_lacks(" "@, p, c);
    without_char_lacks("("@, p, c);
    without_char_lacks(") override;\n\n"@, p, c);
    let none = Seq::<char>::empty();
    nothing_lacks(p);
    trimmed_lacks(m.return_type, p);
    let ret = trimmed(m.return_type);
    shut_joined(s, none, "    "@, p);
    let a = s + none + "    "@;
    shut_joined(a, ret, " "@, p);
    let b = a + ret + " "@;
    shut_joined(b, m.name, "("@, p);
    let d = b + m.name + "("@;
    shut_joined(d, m.params, ") override;\n\n"@, p);
    assert(s + override_line(m) =~= d + m.params + ") override;\n\n"@);
}

proof fn override_lines_keep_shut(
    head: Seq<char>,
    methods: Seq<HalContractMethodView>,
    n: int,
    p: Seq<char>,
    c: char,
)
    requires
        telling(p, c),
        shut(head, p),
        n <= methods.len(),
        forall|i: int| 0 <= i < methods.len() ==> !method_spells(#[trigger] methods[i], p),
    ensures
        shut(override_lines(head, methods, n), p),
    decreases n,
{
    if n > 0 {
        override_lines_keep_shut(head, methods, n - 1, p, c);
        override_line_keeps_shut(override_lines(head, methods, n - 1), methods[n - 1], p, c);
    }
}

proof fn opening_is_shut(
    header_stem: Seq<char>,
    impl_class: Seq<char>,
    base_class: Seq<char>,
    platform: Seq<char>,
    p: Seq<char>,
    c: char,
)
    requires
        telling(p, c),
        !has_text("#include \"hal/api/"@, p),
        !has_text(header_stem, p),
        !has_text(impl_class, p),
        !has_text(base_class, p),
        !has_text(platform, p),
    ensures
        shut(class_opening(header_stem, impl_class, base_class, platform), p),
{
    reveal_strlit("#include \"hal/api/");
    reveal_strlit(".hpp\"\n\nnamespace hal {\n\n/// ");
    reveal_strlit(" — ");
    reveal_strlit(" implementation of ");
    reveal_strlit(".\nclass ");
    reveal_strlit(" : public ");
    reveal_strlit(" {\npublic:\n    ");
    reveal_strlit("() = default;\n    ~");
    reveal_strlit("() override = default;\n\n");
    without_char_lacks(".hpp\"\n\nnamespace hal {\n\n/// "@, p, c);
    without_char_lacks(" — "@, p, c);
    without_char_lacks(" implementation of "@, p, c);
    without_char_lacks(".\nclass "@, p, c);
    without_char_lacks(" : public "@, p, c);
    without_char_lacks(" {\npublic:\n    "@, p, c);
    without_char_lacks("() = default;\n    ~"@, p, c);
    without_char_lacks("() override = default;\n\n"@, p, c);
    let a = "#include \"hal/api/"@;
    shut_joined(a, header_stem, ".hpp\"\n\nnamespace hal {\n\n/// "@, p);
    let b = a + header_stem + ".hpp\"\n\nnamespace hal {\n\n/// "@;
    shut_joined(b, impl_class, " — "@, p);
    let d = b + impl_class + " — "@;
    shut_joined(d, platform, " implementation of "@, p);
    let e = d + platform + " implementation of "@;
    shut_joined(e, base_class, ".\nclass "@, p);
    let f = e + base_class + ".\nclass "@;
    shut_joined(f, impl_class, " : public "@, p);
    let g = f + impl_class + " : public "@;
    shut_joined(g, base_class, " {\npublic:\n    "@, p);
    let h = g + base_class + " {\npublic:\n    "@;
    shut_joined(h, impl_class, "() = default;\n    ~"@, p);
    let k = h + impl_class + "() = default;\n    ~"@;
    shut_joined(k, impl_class, "() override = default;\n\n"@, p);
}

proof fn first_line_lacks_others()
    ensures
        !has_text("#include \"hal/api/"@, SPIRE_HAL_STUB_SENTINEL@),
        !has_text("#include \"hal/api/"@, "TODO"@),
        !has_text("#include \"hal/api/"@, "#pragma"@),
{
    reveal_strlit("#include \"hal/api/");
    reveal_strlit("#pragma");
    words_are_telling();
    let a = "#include \"hal/api/"@;
    without_char_lacks(a, SPIRE_HAL_STUB_SENTINEL@, '-');
    without_char_lacks(a, "TODO"@, 'T');
    assert(forall|i: int| 0 < i < a.len() ==> a[i] != '#');
    if has_text(a, "#pragma"@) {
        let i = choose|i: int| is_at(a, "#pragma"@, i);
        assert(a.subrange(i, i + 7)[0] == a[i]);
        assert(a.subrange(i, i + 7)[1] == a[i + 1]);
    }
}

proof fn clean_closing_lacks(p: Seq<char>, c: char)
    requires
        telling(p, c),
    ensures
        !has_text(class_closing("Platform state"@), p),
{
    reveal_strlit("private:\n    // ");
    reveal_strlit("Platform state");
    reveal_strlit(
        " (SDK handles, buffers, locks, config).\n    struct Impl;\n    Impl* impl_ = nullptr;\n};\n\n} // namespace hal\n",
    );
    let a = "private:\n    // "@;
    let b = "Platform state"@;
    let d = " (SDK handles, buffers, locks, config).\n    struct Impl;\n    Impl* impl_ = nullptr;\n};\n\n} // namespace hal\n"@;
    without_char_lacks(a, p, c);
    without_char_lacks(b, p, c);
    without_char_lacks(d, p, c);
    parted_lacks(a, b, p);
    parted_lacks(a + b, d, p);
}

/// A part of the method spells the word.
pub open spec fn method_spells(m: HalContractMethodView, p: Seq<char>) -> bool {
    has_text(m.return_type, p) || has_text(m.name, p) || has_text(m.params, p)
}

/// One of the texts that a header is made from spells the word.
pub open spec fn header_spells(
    header_stem: Seq<char>,
    impl_class: Seq<char>,
    base_class: Seq<char>,
    methods: Seq<HalContractMethodView>,
    platform: Seq<char>,
    p: Seq<char>,
) -> bool {
    ||| has_text(header_stem, p)
    ||| has_text(impl_class, p)
    ||| has_text(base_class, p)
    ||| has_text(platform, p)
    ||| exists|i: int| 0 <= i < methods.len() && method_spells(#[trigger] methods[i], p)
}

proof fn clean_header_lacks(
    header_stem: Seq<char>,
    impl_class: Seq<char>,
    base_class: Seq<char>,
    methods: Seq<HalContractMethodView>,
    platform: Seq<char>,
    p: Seq<char>,
    c: char,
)
    requires
        telling(p, c),
        !has_text("#include \"hal/api/"@, p),
        !header_spells(header_stem, impl_class, base_class, methods, platform, p),
    ensures
        !has_text(module_header_clean(header_stem, impl_class, base_class, methods, platform), p),
        shut(
            override_lines(
                class_opening(header_stem, impl_class, base_class, platform),
                methods,
                methods.len() as int,
            ),
            p,
        ),
{
    opening_is_shut(header_stem, impl_class, base_class, platform, p, c);
    let head = class_opening(header_stem, impl_class, base_class, platform);
    assert forall|i: int| 0 <= i < methods.len() implies !method_spells(#[trigger] methods[i], p) by {}
    override_lines_keep_shut(head, methods, methods.len() as int, p, c);
    let s = override_lines(head, methods, methods.len() as int);
    clean_closing_lacks(p, c);
    parted_lacks(s, class_closing("Platform state"@), p);
}

/// A finished header never reads as a pending stub, unless a text that it is made
/// from brings the mark in.
pub proof fn clean_header_is_not_pending(
    header_stem: Seq<char>,
    impl_class: Seq<char>,
    base_class: Seq<char>,
    methods: Seq<HalContractMethodView>,
    platform: Seq<char>,
)
    requires
        !header_spells(header_stem, impl_class, base_class, methods, platform, SPIRE_HAL_STUB_SENTINEL@),
    ensures
        !is_stub_text(
            module_header_clean(header_stem, impl_class, base_class, methods, platform),
        ),
{
    words_are_telling();
    first_line_lacks_others();
    clean_header_lacks(
        header_stem,
        impl_class,
        base_class,
        methods,
        platform,
        SPIRE_HAL_STUB_SENTINEL@,
        '-',
    );
}

proof fn overrides_follow(a: Seq<char>, b: Seq<char>, methods: Seq<HalContractMethodView>, n: int)
    ensures
        override_lines(a + b, methods, n) == a + override_lines(b, methods, n),
    decreases n,
{
    if n > 0 {
        overrides_follow(a, b, methods, n - 1);
        let done = override_lines(b, methods, n - 1);
        let line = override_line(methods[n - 1]);
        assert((a + done) + line =~= a + (done + line));
    }
}

/// The finished header is the pending one without its banner and with its comment on
/// the private state reworded; the class that they declare is the same.
pub proof fn clean_header_lacks_only_the_banner(
    header_stem: Seq<char>,
    impl_class: Seq<char>,
    base_class: Seq<char>,
    methods: Seq<HalContractMethodView>,
    platform: Seq<char>,
)
    ensures
        exists|class: Seq<char>|
            #![trigger class + class_closing("Platform state"@)]
            module_header_clean(header_stem, impl_class, base_class, methods, platform) == class
                + class_closing("Platform state"@) && module_header(
                header_stem,
                impl_class,
                base_class,
                methods,
                platform,
            ) == stub_banner(impl_class + ".hpp"@, "state + TODO bodies"@, platform) + class
                + class_closing("TODO: platform state"@),
{
    let banner = stub_banner(impl_class + ".hpp"@, "state + TODO bodies"@, platform);
    let head = class_opening(header_stem, impl_class, base_class, platform);
    let class = override_lines(head, methods, methods.len() as int);
    overrides_follow(banner, head, methods, methods.len() as int);
    assert(module_header_clean(header_stem, impl_class, base_class, methods, platform) == class
        + class_closing("Platform state"@));
}

proof fn banner_lacks_first_line(impl_class: Seq<char>, platform: Seq<char>)
    requires
        !has_text(impl_class, "#include"@),
        !has_text(platform, "#include"@),
    ensures
        shut(stub_banner(impl_class + ".hpp"@, "state + TODO bodies"@, platform), "#include"@),
{
    let p = "#include"@;
    let mark = SPIRE_HAL_STUB_SENTINEL@;
    let what = "state + TODO bodies"@;
    let f1 = ": "@;
    let f2 = " — "@;
    let f3 = " implementation pending.\n// Replace the "@;
    let f4 = " below with a real implementation.\n#pragma message(\"SPIRE HAL stub needs implementation: "@;
    let f5 = " ("@;
    let f6 = ")\")\n\n"@;
    words_are_telling();
    reveal_strlit("#include");
    reveal_strlit("SPIRE-HAL-STUB");
    reveal_strlit("state + TODO bodies");
    reveal_strlit("// ");
    reveal_strlit(": ");
    reveal_strlit(" — ");
    reveal_strlit(" implementation pending.\n// Replace the ");
    reveal_strlit(
        " below with a real implementation.\n#pragma message(\"SPIRE HAL stub needs implementation: ",
    );
    reveal_strlit(" (");
    reveal_strlit(")\")\n\n");
    reveal_strlit(".hpp");
    without_char_lacks("// "@, p, '#');
    without_char_lacks(mark, p, '#');
    without_char_lacks(what, p, '#');
    without_char_lacks(f1, p, '#');
    without_char_lacks(f2, p, '#');
    without_char_lacks(f3, p, '#');
    without_char_lacks(f5, p, '#');
    without_char_lacks(f6, p, '#');
    without_char_lacks(".hpp"@, p, '#');
    assert(forall|i: int| 0 <= i < f4.len() && i != 35 ==> f4[i] != '#');
    if has_text(f4, p) {
        let i = choose|i: int| is_at(f4, p, i);
        assert(f4.subrange(i, i + 8)[0] == f4[i]);
        assert(f4.subrange(i, i + 8)[1] == f4[i + 1]);
    }
    let subject = impl_class + ".hpp"@;
    parted_lacks(impl_class, ".hpp"@, p);
    let a = "// "@;
    shut_joined(a, mark, f1, p);
    let b = a + mark + f1;
    shut_joined(b, subject, f2, p);
    let d = b + subject + f2;
    shut_joined(d, platform, f3, p);
    let e = d + platform + f3;
    shut_joined(e, what, f4, p);
    let f = e + what + f4;
    shut_joined(f, subject, f5, p);
    let g = f + subject + f5;
    shut_joined(g, platform, f6, p);
}

proof fn replaced_keeps_head(s: Seq<char>, from: Seq<char>, to: Seq<char>, i: int, k: int)
    requires
        0 <= i <= k <= s.len(),
        from.len() > 0,
        forall|j: int| i <= j < k ==> !is_at(s, from, j),
    ensures
        replaced_from(s, from, to, i) == s.subrange(i, k) + replaced_from(s, from, to, k),
    decreases k - i,
{
    if i < k {
        replaced_keeps_head(s, from, to, i + 1, k);
        assert(!is_at(s, from, i));
        assert(s.subrange(i, k) =~= seq![s[i]] + s.subrange(i + 1, k));
        assert(seq![s[i]] + (s.subrange(i + 1, k) + replaced_from(s, from, to, k)) =~= s.subrange(i, k)
            + replaced_from(s, from, to, k));
    } else {
        assert(s.subrange(i, k) + replaced_from(s, from, to, k) =~= replaced_from(s, from, to, k));
    }
}

proof fn replaced_once(a: Seq<char>, from: Seq<char>, to: Seq<char>, rest: Seq<char>)
    requires
        from.len() > 0,
        forall|j: int| 0 <= j < a.len() ==> !is_at(a + from + rest, from, j),
        !has_text(rest, from),
    ensures
        replaced(a + from + rest, from, to) == a + to + rest,
{
    let s = a + from + rest;
    let n = a.len() as int;
    let m = n + from.len();
    replaced_keeps_head(s, from, to, 0, n);
    assert(s.subrange(n, m) =~= from);
    assert(is_at(s, from, n));
    assert forall|j: int| m <= j < s.len() implies !is_at(s, from, j) by {
        if is_at(s, from, j) {
            assert(rest.subrange(j - m, j - m + from.len()) =~= s.subrange(j, j + from.len()));
            assert(is_at(rest, from, j - m));
        }
    }
    replaced_keeps_head(s, from, to, m, s.len() as int);
    assert(s.subrange(0, n) =~= a);
    assert(s.subrange(m, s.len() as int) =~= rest);
    assert(replaced_from(s, from, to, s.len() as int) =~= Seq::empty());
    assert(replaced(s, from, to) =~= a + to + rest);
}

proof fn shut_text_comes_first(front: Seq<char>, rest: Seq<char>, p: Seq<char>, j: int)
    requires
        p.len() > 0,
        shut(front, p),
        is_at(front + rest, p, j),
    ensures
        j >= front.len(),
{
    let s = front + rest;
    let n = p.len();
    if j + n <= front.len() {
        assert(front.subrange(j, j + n) =~= s.subrange(j, j + n));
        assert(is_at(front, p, j));
    } else if j < front.len() {
        assert(s.subrange(j, j + n)[front.len() - 1 - j] == s[front.len() - 1]);
        assert(p[front.len() - 1 - j] == front.last());
    }
}

proof fn state_comments()
    ensures
        "private:\n    // "@ == "private:\n    "@ + "// "@,
        "// TODO: platform state"@ == "// "@ + "TODO: platform state"@,
        "// Platform state"@ == "// "@ + "Platform state"@,
        "// TODO: platform state"@.subrange(3, 7) == "TODO"@,
        "// TODO: platform state"@.len() == 23,
        "// "@.len() == 3,
        "// "@.last() == ' ',
        "TODO"@.len() == 4,
        !has_text("private:\n    // "@, "TODO"@),
{
    reveal_strlit("private:\n    // ");
    reveal_strlit("private:\n    ");
    reveal_strlit("// ");
    reveal_strlit("TODO");
    reveal_strlit("TODO: platform state");
    reveal_strlit("Platform state");
    reveal_strlit("// TODO: platform state");
    reveal_strlit("// Platform state");
    assert("private:\n    // "@ =~= "private:\n    "@ + "// "@);
    assert("// TODO: platform state"@ =~= "// "@ + "TODO: platform state"@);
    assert("// Platform state"@ =~= "// "@ + "Platform state"@);
    assert("// TODO: platform state"@.subrange(3, 7) =~= "TODO"@);
    words_are_telling();
    without_char_lacks("private:\n    // "@, "TODO"@, 'T');
}

proof fn closing_text_lacks_comment()
    ensures
        !has_text(
            " (SDK handles, buffers, locks, config).\n    struct Impl;\n    Impl* impl_ = nullptr;\n};\n\n} // namespace hal\n"@,
            "// TODO: platform state"@,
        ),
{
    reveal_strlit("// TODO: platform state");
    reveal_strlit(
        " (SDK handles, buffers, locks, config).\n    struct Impl;\n    Impl* impl_ = nullptr;\n};\n\n} // namespace hal\n",
    );
    assert("// TODO: platform state"@[3] == 'T');
    without_char_lacks(
        " (SDK handles, buffers, locks, config).\n    struct Impl;\n    Impl* impl_ = nullptr;\n};\n\n} // namespace hal\n"@,
        "// TODO: platform state"@,
        'T',
    );
}

proof fn state_comment_is_reworded(class: Seq<char>)
    requires
        shut(class, "TODO"@),
    ensures
        replaced(
            class + class_closing("TODO: platform state"@),
            "// TODO: platform state"@,
            "// Platform state"@,
        ) == class + class_closing("Platform state"@),
{
    let from = "// TODO: platform state"@;
    let to = "// Platform state"@;
    let rest = " (SDK handles, buffers, locks, config).\n    struct Impl;\n    Impl* impl_ = nullptr;\n};\n\n} // namespace hal\n"@;
    state_comments();
    closing_text_lacks_comment();
    words_are_telling();
    let s = class + class_closing("TODO: platform state"@);
    let lead = class + "private:\n    "@;
    assert(s =~= lead + from + rest);
    let front = class + "private:\n    // "@;
    parted_lacks(class, "private:\n    // "@, "TODO"@);
    assert(front.last() == "// "@.last());
    assert(s =~= front + ("TODO: platform state"@ + rest));
    assert forall|j: int| 0 <= j < lead.len() implies !is_at(s, from, j) by {
        if is_at(s, from, j) {
            assert(s.subrange(j + 3, j + 7) =~= s.subrange(j, j + 23).subrange(3, 7));
            assert(is_at(s, "TODO"@, j + 3));
            shut_text_comes_first(front, "TODO: platform state"@ + rest, "TODO"@, j + 3);
        }
    }
    replaced_once(lead, from, to, rest);
    assert(lead + to + rest =~= class + class_closing("Platform state"@));
}

/// Where no text that a header is made from spells what marks a pending file, the
/// finished header is the pending one from its first inclusion on, with the comment
/// on the private state reworded; the pending one carries the mark and the finished
/// one does not, nor a `#pragma message`, nor a TODO.
pub proof fn clean_header_is_the_pending_one_cleaned(
    header_stem: Seq<char>,
    impl_class: Seq<char>,
    base_class: Seq<char>,
    methods: Seq<HalContractMethodView>,
    platform: Seq<char>,
)
    requires
        !header_spells(header_stem, impl_class, base_class, methods, platform, SPIRE_HAL_STUB_SENTINEL@),
        !header_spells(header_stem, impl_class, base_class, methods, platform, "#include"@),
        !header_spells(header_stem, impl_class, base_class, methods, platform, "#pragma"@),
        !header_spells(header_stem, impl_class, base_class, methods, platform, "TODO"@),
    ensures
        ({
            let clean = module_header_clean(header_stem, impl_class, base_class, methods, platform);
            let pending = module_header(header_stem, impl_class, base_class, methods, platform);
            &&& find_from(pending, "#include"@, 0) matches Some(k) && clean == replaced(
                after(pending, k),
                "// TODO: platform state"@,
                "// Platform state"@,
            )
            &&& is_stub_text(pending)
            &&& !is_stub_text(clean)
            &&& !has_text(clean, "#pragma message"@)
            &&& !has_text(clean, "TODO"@)
        }),
{
    let clean = module_header_clean(header_stem, impl_class, base_class, methods, platform);
    let pending = module_header(header_stem, impl_class, base_class, methods, platform);
    let head = class_opening(header_stem, impl_class, base_class, platform);
    let class = override_lines(head, methods, methods.len() as int);
    let banner = stub_banner(impl_class + ".hpp"@, "state + TODO bodies"@, platform);
    words_are_telling();
    first_line_lacks_others();
    clean_header_is_not_pending(header_stem, impl_class, base_class, methods, platform);
    generated_pair_is_pending(header_stem, impl_class, base_class, methods, platform);
    clean_header_lacks(header_stem, impl_class, base_class, methods, platform, "TODO"@, 'T');
    clean_header_lacks(header_stem, impl_class, base_class, methods, platform, "#pragma"@, '#');
    if has_text(clean, "#pragma message"@) {
        reveal_strlit("#pragma message");
        reveal_strlit("#pragma");
        let i = choose|i: int| is_at(clean, "#pragma message"@, i);
        let part = clean.subrange(i, i + 15);
        assert(clean.subrange(i, i + 7) =~= part.subrange(0, 7));
        assert(part.subrange(0, 7) =~= "#pragma"@);
        assert(is_at(clean, "#pragma"@, i));
    }
    overrides_follow(banner, head, methods, methods.len() as int);
    let tail = class + class_closing("TODO: platform state"@);
    assert(pending =~= banner + tail);
    banner_lacks_first_line(impl_class, platform);
    class_begins_with_opening(head, methods, methods.len() as int);
    reveal_strlit("#include");
    reveal_strlit("#include \"hal/api/");
    let k = banner.len() as int;
    assert(head.subrange(0, 8) =~= "#include"@);
    assert(tail.subrange(0, 8) =~= head.subrange(0, 8));
    assert(pending.subrange(k, k + 8) =~= tail.subrange(0, 8));
    assert(is_at(pending, "#include"@, k));
    assert forall|j: int| 0 <= j < k implies !is_at(pending, "#include"@, j) by {
        if is_at(pending, "#include"@, j) {
            shut_text_comes_first(banner, tail, "#include"@, j);
        }
    }
    find_from_is_first(pending, "#include"@, 0);
    assert(find_from(pending, "#include"@, 0) == Some(k));
    assert(after(pending, k) =~= tail);
    state_comment_is_reworded(class);
}

proof fn class_begins_with_opening(head: Seq<char>, methods: Seq<HalContractMethodView>, n: int)
    ensures
        override_lines(head, methods, n).len() >= head.len(),
        override_lines(head, methods, n).subrange(0, head.len() as int) == head,
    decreases n,
{
    if n > 0 {
        class_begins_with_opening(head, methods, n - 1);
        let done = override_lines(head, methods, n - 1);
        assert((done + override_line(methods[n - 1])).subrange(0, head.len() as int) =~= done.subrange(
            0,
            head.len() as int,
        ));
    } else {
        assert(head.subrange(0, head.len() as int) =~= head);
    }
}

// ---------------------------------------------------------------------------
// Contracts and their changes
// ---------------------------------------------------------------------------

proof fn sorted_names_are_the_names(methods: Seq<HalContractMethodView>)
    ensures
        forall|x: Seq<char>|
            #[trigger] sorted_names(methods).contains(x) <==> method_names(methods).contains(x),
{
    broadcast use vstd::seq_lib::group_to_multiset_ensures;

    let names = method_names(methods);
    distinct_keeps_members(names);
    sorted_is_ordered_permutation(distinct(names));
    assert forall|x: Seq<char>| #[trigger] sorted(distinct(names)).contains(x) <==> names.contains(x) by {
        assert(sorted(distinct(names)).contains(x) <==> sorted(distinct(names)).to_multiset().count(
            x,
        ) > 0);
        assert(distinct(names).contains(x) <==> distinct(names).to_multiset().count(x) > 0);
    }
}

proof fn named_is_found(methods: Seq<HalContractMethodView>, name: Seq<char>, k: int)
    requires
        0 <= k,
    ensures
        method_from(methods, name, k) is Some <==> (exists|i: int|
            k <= i < methods.len() && (#[trigger] methods[i]).name == name),
        method_from(methods, name, k) matches Some(m) ==> m.name == name,
    decreases methods.len() - k,
{
    if k < methods.len() {
        named_is_found(methods, name, k + 1);
        if methods[k].name == name {
            assert(k <= k < methods.len() && methods[k].name == name);
        }
    }
}

proof fn method_is_named(methods: Seq<HalContractMethodView>, name: Seq<char>)
    ensures
        method_named(methods, name) is Some <==> method_names(methods).contains(name),
{
    named_is_found(methods, name, 0);
    let names = method_names(methods);
    if names.contains(name) {
        let i = choose|i: int| 0 <= i < names.len() && names[i] == name;
        assert(methods[i].name == name);
    }
    if method_named(methods, name) is Some {
        let i = choose|i: int| 0 <= i < methods.len() && (#[trigger] methods[i]).name == name;
        assert(names[i] == name);
    }
}

proof fn names_without_members(
    names: Seq<Seq<char>>,
    methods: Seq<HalContractMethodView>,
    n: int,
    x: Seq<char>,
)
    requires
        0 <= n <= names.len(),
    ensures
        names_without(names, methods, n).contains(x) <==> names.take(n).contains(x)
            && method_named(methods, x) is None,
    decreases n,
{
    if n > 0 {
        names_without_members(names, methods, n - 1, x);
        assert(names.take(n) =~= names.take(n - 1).push(names[n - 1]));
        push_contains(names.take(n - 1), names[n - 1], x);
        push_contains(names_without(names, methods, n - 1), names[n - 1], x);
    }
}

/// A difference names exactly what came and what went: a method is added where
/// the new contract has it and the old one has not, and removed the other way
/// round.
pub proof fn diff_names_what_changed(old_summary: Seq<char>, new_summary: Seq<char>, name: Seq<char>)
    ensures
        ({
            let had = method_names(summary_methods(old_summary)).contains(name);
            let has = method_names(summary_methods(new_summary)).contains(name);
            let d = contract_diff(old_summary, new_summary);
            &&& d.added.contains(name) <==> has && !had
            &&& d.removed.contains(name) <==> had && !has
        }),
{
    let old_methods = summary_methods(old_summary);
    let new_methods = summary_methods(new_summary);
    sorted_names_are_the_names(old_methods);
    sorted_names_are_the_names(new_methods);
    method_is_named(old_methods, name);
    method_is_named(new_methods, name);
    let a = sorted_names(new_methods);
    let b = sorted_names(old_methods);
    names_without_members(a, old_methods, a.len() as int, name);
    names_without_members(b, new_methods, b.len() as int, name);
    assert(a.take(a.len() as int) =~= a);
    assert(b.take(b.len() as int) =~= b);
}

/// What one way round is added is the other way round removed.
pub proof fn diff_is_symmetric(a: Seq<char>, b: Seq<char>)
    ensures
        contract_diff(a, b).added == contract_diff(b, a).removed,
        contract_diff(a, b).removed == contract_diff(b, a).added,
{
}

/// Every text stands before the ones behind it, so none stands there twice.
pub open spec fn ascending(s: Seq<Seq<char>>) -> bool {
    forall|i: int, j: int| 0 <= i < j < s.len() ==> less(#[trigger] s[i], #[trigger] s[j])
}

/// The names of the methods that a difference reports as changed.
pub open spec fn changed_names(d: HalContractChangeView) -> Seq<Seq<char>> {
    Seq::new(d.changed.len(), |i: int| d.changed[i].0)
}

proof fn sorted_names_ascend(methods: Seq<HalContractMethodView>)
    ensures
        ascending(sorted_names(methods)),
{
    let names = distinct(method_names(methods));
    let s = sorted(names);
    distinct_keeps_members(method_names(methods));
    sorted_is_ordered_permutation(names);
    names.lemma_multiset_has_no_duplicates();
    s.lemma_multiset_has_no_duplicates_conv();
    assert forall|i: int, j: int| 0 <= i < j < s.len() implies less(#[trigger] s[i], #[trigger] s[j]) by {
        less_total(s[i], s[j]);
        assert(!less(s[j], s[i]));
        assert(s[i] != s[j]);
    }
}

proof fn lacking_names_ascend(names: Seq<Seq<char>>, methods: Seq<HalContractMethodView>, n: int)
    requires
        ascending(names),
        0 <= n <= names.len(),
    ensures
        ascending(names_without(names, methods, n)),
        forall|i: int, j: int|
            0 <= i < names_without(names, methods, n).len() && n <= j < names.len() ==> less(
                #[trigger] names_without(names, methods, n)[i],
                #[trigger] names[j],
            ),
    decreases n,
{
    if n > 0 {
        lacking_names_ascend(names, methods, n - 1);
    }
}

proof fn changes_ascend(
    names: Seq<Seq<char>>,
    old_methods: Seq<HalContractMethodView>,
    new_methods: Seq<HalContractMethodView>,
    n: int,
)
    requires
        ascending(names),
        0 <= n <= names.len(),
    ensures
        ({
            let c = changes_upto(names, old_methods, new_methods, n);
            &&& forall|i: int, j: int| 0 <= i < j < c.len() ==> less((#[trigger] c[i]).0, (#[trigger] c[j]).0)
            &&& forall|i: int, j: int| 0 <= i < c.len() && n <= j < names.len() ==> less(
                (#[trigger] c[i]).0,
                #[trigger] names[j],
            )
        }),
    decreases n,
{
    if n > 0 {
        changes_ascend(names, old_methods, new_methods, n - 1);
        let done = changes_upto(names, old_methods, new_methods, n - 1);
        let c = changes_upto(names, old_methods, new_methods, n);
        if c.len() > done.len() {
            let k = done.len() as int;
            assert(c[k].0 == names[n - 1]);
            assert forall|i: int| 0 <= i < k implies c[i] == done[i] && less(c[i].0, names[n - 1]) by {
                assert(c[i] == done[i]);
                assert(less(done[i].0, names[n - 1]));
            }
            assert forall|i: int, j: int| 0 <= i < j < c.len() implies less(
                (#[trigger] c[i]).0,
                (#[trigger] c[j]).0,
            ) by {
                assert(c[i] == done[i]);
                if j < k {
                    assert(c[j] == done[j]);
                }
            }
            assert forall|i: int, j: int| 0 <= i < c.len() && n <= j < names.len() implies less(
                (#[trigger] c[i]).0,
                #[trigger] names[j],
            ) by {
                if i < k {
                    assert(c[i] == done[i]);
                }
            }
        }
    }
}

/// The method is in both lists, with another signature.
pub open spec fn is_changed(
    old_methods: Seq<HalContractMethodView>,
    new_methods: Seq<HalContractMethodView>,
    name: Seq<char>,
) -> bool {
    match (method_named(old_methods, name), method_named(new_methods, name)) {
        (Some(a), Some(b)) => signature_differs(a, b),
        _ => false,
    }
}

proof fn changes_members(
    names: Seq<Seq<char>>,
    old_methods: Seq<HalContractMethodView>,
    new_methods: Seq<HalContractMethodView>,
    n: int,
    x: Seq<char>,
)
    requires
        0 <= n <= names.len(),
    ensures
        (exists|i: int|
            0 <= i < changes_upto(names, old_methods, new_methods, n).len() && (
            #[trigger] changes_upto(names, old_methods, new_methods, n)[i]).0 == x) <==> names.take(
            n,
        ).contains(x) && is_changed(old_methods, new_methods, x),
    decreases n,
{
    let now = changes_upto(names, old_methods, new_methods, n);
    if n > 0 {
        changes_members(names, old_methods, new_methods, n - 1, x);
        let done = changes_upto(names, old_methods, new_methods, n - 1);
        assert(names.take(n) =~= names.take(n - 1).push(names[n - 1]));
        push_contains(names.take(n - 1), names[n - 1], x);
        if is_changed(old_methods, new_methods, names[n - 1]) {
            assert(now.len() == done.len() + 1);
            assert(now[done.len() as int].0 == names[n - 1]);
            if exists|i: int| 0 <= i < done.len() && (#[trigger] done[i]).0 == x {
                let i = choose|i: int| 0 <= i < done.len() && (#[trigger] done[i]).0 == x;
                assert(now[i] == done[i]);
            }
            if exists|i: int| 0 <= i < now.len() && (#[trigger] now[i]).0 == x {
                let i = choose|i: int| 0 <= i < now.len() && (#[trigger] now[i]).0 == x;
                if i < done.len() {
                    assert(done[i] == now[i]);
                }
            }
        }
    }
}

/// A difference reports as changed exactly the methods that both contracts have with
/// another signature.
pub proof fn diff_names_what_differs(old_summary: Seq<char>, new_summary: Seq<char>, name: Seq<char>)
    ensures
        changed_names(contract_diff(old_summary, new_summary)).contains(name) <==> is_changed(
            summary_methods(old_summary),
            summary_methods(new_summary),
            name,
        ),
{
    let old_methods = summary_methods(old_summary);
    let new_methods = summary_methods(new_summary);
    let names = sorted_names(new_methods);
    let n = names.len() as int;
    let c = changes_upto(names, old_methods, new_methods, n);
    let listed = changed_names(contract_diff(old_summary, new_summary));
    changes_members(names, old_methods, new_methods, n, name);
    sorted_names_are_the_names(new_methods);
    method_is_named(new_methods, name);
    assert(names.take(n) =~= names);
    if listed.contains(name) {
        let i = choose|i: int| 0 <= i < listed.len() && listed[i] == name;
        assert(c[i].0 == name);
    }
    if is_changed(old_methods, new_methods, name) {
        let i = choose|i: int| 0 <= i < c.len() && (#[trigger] c[i]).0 == name;
        assert(listed[i] == name);
    }
}

/// What changed one way round has changed the other way round.
pub proof fn changes_agree_both_ways(a: Seq<char>, b: Seq<char>, name: Seq<char>)
    ensures
        changed_names(contract_diff(a, b)).contains(name) <==> changed_names(
            contract_diff(b, a),
        ).contains(name),
{
    diff_names_what_differs(a, b, name);
    diff_names_what_differs(b, a, name);
}

/// Each list of a difference stands in dictionary order, without repeats, and no
/// method stands in two of them.
pub proof fn diff_lists_are_ordered_and_apart(a: Seq<char>, b: Seq<char>, name: Seq<char>)
    ensures
        ({
            let d = contract_diff(a, b);
            &&& ascending(d.added)
            &&& ascending(d.removed)
            &&& ascending(changed_names(d))
            &&& !(d.added.contains(name) && d.removed.contains(name))
            &&& !(d.added.contains(name) && changed_names(d).contains(name))
            &&& !(d.removed.contains(name) && changed_names(d).contains(name))
        }),
{
    let old_methods = summary_methods(a);
    let new_methods = summary_methods(b);
    let old_names = sorted_names(old_methods);
    let new_names = sorted_names(new_methods);
    sorted_names_ascend(old_methods);
    sorted_names_ascend(new_methods);
    lacking_names_ascend(new_names, old_methods, new_names.len() as int);
    lacking_names_ascend(old_names, new_methods, old_names.len() as int);
    changes_ascend(new_names, old_methods, new_methods, new_names.len() as int);
    diff_names_what_changed(a, b, name);
    diff_names_what_differs(a, b, name);
    method_is_named(old_methods, name);
    method_is_named(new_methods, name);
}

proof fn nothing_changed(names: Seq<Seq<char>>, methods: Seq<HalContractMethodView>, n: int)
    ensures
        changes_upto(names, methods, methods, n).len() == 0,
    decreases n,
{
    if n > 0 {
        nothing_changed(names, methods, n - 1);
    }
}

proof fn nothing_lacking(names: Seq<Seq<char>>, methods: Seq<HalContractMethodView>, n: int)
    requires
        0 <= n <= names.len(),
        forall|i: int| 0 <= i < names.len() ==> method_named(methods, #[trigger] names[i]) is Some,
    ensures
        names_without(names, methods, n).len() == 0,
    decreases n,
{
    if n > 0 {
        nothing_lacking(names, methods, n - 1);
        assert(method_named(methods, names[n - 1]) is Some);
    }
}

/// A contract does not differ from itself.
pub proof fn diff_of_same_is_empty(summary: Seq<char>)
    ensures
        contract_diff(summary, summary).added.len() == 0,
        contract_diff(summary, summary).removed.len() == 0,
        contract_diff(summary, summary).changed.len() == 0,
{
    let methods = summary_methods(summary);
    let names = sorted_names(methods);
    sorted_names_are_the_names(methods);
    assert forall|i: int| 0 <= i < names.len() implies method_named(methods, #[trigger] names[i]) is Some by {
        assert(names.contains(names[i]));
        method_is_named(methods, names[i]);
    }
    nothing_lacking(names, methods, names.len() as int);
    nothing_changed(names, methods, names.len() as int);
}

// ---------------------------------------------------------------------------
// Coverage
// ---------------------------------------------------------------------------

/// The method is defined, with the contract's signature.
pub open spec fn is_met(c: HalContractMethodView, methods: Seq<HalImplMethodView>) -> bool {
    impl_from(methods, c.name, 0) matches Some(m) && !drifts(c, m)
}

proof fn gaps_are_the_unmet(
    contract: Seq<HalContractMethodView>,
    methods: Seq<HalImplMethodView>,
    n: int,
)
    requires
        0 <= n <= contract.len(),
    ensures
        (gaps_upto(contract, methods, n).0.len() == 0 && gaps_upto(contract, methods, n).1.len() == 0)
            <==> (forall|i: int| 0 <= i < n ==> is_met(#[trigger] contract[i], methods)),
    decreases n,
{
    if n > 0 {
        gaps_are_the_unmet(contract, methods, n - 1);
        let c = contract[n - 1];
        if is_met(c, methods) {
            assert(gaps_upto(contract, methods, n) == gaps_upto(contract, methods, n - 1));
        } else {
            assert(gaps_upto(contract, methods, n).0.len() > 0 || gaps_upto(
                contract,
                methods,
                n,
            ).1.len() > 0);
            assert(!is_met(contract[n - 1], methods));
        }
    }
}

/// An interface counts as implemented exactly where it is no pending stub and
/// every method of the contract is there with a matching signature.
pub proof fn implemented_means_complete(
    contract: Seq<HalContractMethodView>,
    methods: Seq<HalImplMethodView>,
    attributed: bool,
    stubbed: bool,
)
    ensures
        coverage_of(contract, methods, attributed, stubbed).implemented <==> !stubbed && (forall|i: int|
            0 <= i < contract.len() ==> is_met(#[trigger] contract[i], methods)),
{
    gaps_are_the_unmet(contract, methods, contract.len() as int);
}

/// A pending stub is never implemented, however well its signatures match: it
/// reports every method of the contract as missing, and none as drifted.
pub proof fn stub_lacks_everything(
    contract: Seq<HalContractMethodView>,
    methods: Seq<HalImplMethodView>,
    attributed: bool,
)
    ensures
        ({
            let c = coverage_of(contract, methods, attributed, true);
            &&& !c.implemented
            &&& c.is_stub
            &&& c.missing_sigs == contract
            &&& c.missing == method_names(contract)
            &&& c.drifted.len() == 0
        }),
{
}

/// A method that is written as the contract has it has not drifted.
pub proof fn same_signature_is_no_drift(c: HalContractMethodView, m: HalImplMethodView)
    requires
        c.params == m.params,
        c.return_type == m.return_type,
    ensures
        !drifts(c, m),
{
}

/// The name of a parameter does not count: two parameters of the same type words
/// are the same to the comparison, whatever they are called.
pub proof fn parameter_names_do_not_count(
    p: Seq<char>,
    q: Seq<char>,
    type_words: Seq<Seq<char>>,
    a: Seq<char>,
    b: Seq<char>,
)
    requires
        param_words(p) == type_words.push(a),
        param_words(q) == type_words.push(b),
        holds_type(type_words, type_words.len() as int),
        starts_with_name(a),
        starts_with_name(b),
        name_end(a, 0) == a.len(),
        name_end(b, 0) == b.len(),
    ensures
        param_type(p) == param_type(q),
{
    let i = choose|i: int| 0 <= i < type_words.len() && !is_qualifier(#[trigger] type_words[i]);
    assert(param_words(p)[i] == type_words[i]);
    assert(param_words(q)[i] == type_words[i]);
    assert(type_words.push(a).drop_last() =~= type_words);
    assert(type_words.push(b).drop_last() =~= type_words);
    assert(after(a, a.len() as int) =~= after(b, b.len() as int));
}

// ---------------------------------------------------------------------------
// Names of implementations
// ---------------------------------------------------------------------------

proof fn absent_file_has_no_content(
    files: Seq<(Seq<char>, Option<Seq<char>>)>,
    name: Seq<char>,
    k: int,
)
    requires
        !file_names(files).contains(name),
    ensures
        content_of(files, name, k) is None,
    decreases files.len() - k,
{
    if 0 <= k < files.len() {
        absent_file_has_no_content(files, name, k + 1);
        assert(file_names(files)[k] == files[k].0);
    }
}

/// No finished implementation is overwritten: the names that are chosen for a
/// generated implementation belong to files that are free or pending stubs.
pub proof fn chosen_names_are_replaceable(
    files: Seq<(Seq<char>, Option<Seq<char>>)>,
    iface: Seq<char>,
    plat: Seq<char>,
    n: int,
)
    requires
        first_free(file_names(files), iface, plat, n) || (n == 1 && replaceable(
            files,
            impl_file(iface, plat, ".cpp"@),
        ) && replaceable(files, impl_file(iface, plat, ".hpp"@))),
    ensures
        replaceable(files, impl_names(iface, plat, n).1),
        replaceable(files, impl_names(iface, plat, n).2),
{
    if first_free(file_names(files), iface, plat, n) {
        absent_file_has_no_content(files, impl_file(iface, token(plat, n), ".cpp"@), 0);
        absent_file_has_no_content(files, impl_file(iface, token(plat, n), ".hpp"@), 0);
    }
}

/// Only pending stubs are removed once an interface has an implementation.
pub proof fn only_stubs_go_stale(
    files: Seq<(Seq<char>, Option<Seq<char>>)>,
    iface: Seq<char>,
    n: int,
    name: Seq<char>,
)
    requires
        0 <= n <= files.len(),
        stale_upto(files, iface, n).contains(name),
    ensures
        exists|i: int|
            0 <= i < n && (#[trigger] files[i]).0 == name && (files[i].1 matches Some(c)
                && is_stub_text(c)),
    decreases n,
{
    if n > 0 {
        let done = stale_upto(files, iface, n - 1);
        if done.contains(name) {
            only_stubs_go_stale(files, iface, n - 1, name);
            let i = choose|i: int|
                0 <= i < n - 1 && (#[trigger] files[i]).0 == name && (files[i].1 matches Some(c)
                    && is_stub_text(c));
            assert(files[i].0 == name);
        } else {
            push_contains(done, files[n - 1].0, name);
            assert(files[n - 1].0 == name);
        }
    }
}

// ---------------------------------------------------------------------------
// Graphs and documentation
// ---------------------------------------------------------------------------

proof fn all_nodes_match(nodes: Seq<crate::graph::HalGraphNodeView>, q: Seq<char>, n: int)
    requires
        0 <= n <= nodes.len(),
        q.len() == 0,
    ensures
        matching_nodes(nodes, q, n) == nodes.take(n),
    decreases n,
{
    if n > 0 {
        all_nodes_match(nodes, q, n - 1);
        assert(nodes.take(n) =~= nodes.take(n - 1).push(nodes[n - 1]));
    } else {
        assert(nodes.take(0) =~= Seq::empty());
    }
}

/// An empty query keeps every node.
pub proof fn empty_query_keeps_all_nodes(g: HalGraphView, query: Seq<char>)
    requires
        lowercase(query).len() == 0,
    ensures
        query_result(g, query).0 == g.nodes,
{
    all_nodes_match(g.nodes, lowercase(query), g.nodes.len() as int);
    assert(g.nodes.take(g.nodes.len() as int) =~= g.nodes);
}

proof fn touching_edges_touch(
    edges: Seq<crate::graph::HalGraphEdgeView>,
    ids: Seq<Seq<char>>,
    n: int,
    k: int,
)
    requires
        0 <= k < touching_edges(edges, ids, n).len(),
    ensures
        ids.contains(touching_edges(edges, ids, n)[k].from) || ids.contains(
            touching_edges(edges, ids, n)[k].to,
        ),
    decreases n,
{
    if n > 0 {
        let done = touching_edges(edges, ids, n - 1);
        if k < done.len() {
            touching_edges_touch(edges, ids, n - 1, k);
        }
    }
}

/// Every edge that a query returns touches a node that it returns.
pub proof fn query_edges_touch_query_nodes(g: HalGraphView, query: Seq<char>, k: int)
    requires
        0 <= k < query_result(g, query).1.len(),
    ensures
        ({
            let (nodes, edges) = query_result(g, query);
            node_ids(nodes).contains(edges[k].from) || node_ids(nodes).contains(edges[k].to)
        }),
{
    let (nodes, edges) = query_result(g, query);
    touching_edges_touch(g.edges, node_ids(nodes), g.edges.len() as int, k);
}

/// A fix plan has a step for a file only where the file has an issue.
pub proof fn plan_steps_have_issues(files: Seq<HalDocLintFileView>, n: int, k: int)
    requires
        0 <= n <= files.len(),
        0 <= k < plan_steps(files, n).len(),
    ensures
        plan_steps(files, n)[k].issues.len() > 0,
    decreases n,
{
    if n > 0 {
        let done = plan_steps(files, n - 1);
        if k < done.len() {
            plan_steps_have_issues(files, n - 1, k);
        }
    }
}

// ---------------------------------------------------------------------------
// Layouts and migration
// ---------------------------------------------------------------------------

/// A project is canonical only where nothing of the legacy layout is left; with
/// something left it is mixed, never canonical.
pub proof fn canonical_means_no_legacy(t: ProjectTreeView)
    ensures
        layout_of(t) == HalLayout::Canonical <==> has_canonical(t) && !has_legacy(t),
        layout_of(t) == HalLayout::Mixed <==> has_canonical(t) && has_legacy(t),
        layout_of(t) == HalLayout::Legacy <==> !has_canonical(t) && has_legacy(t),
        layout_of(t) == HalLayout::Absent <==> !has_canonical(t) && !has_legacy(t),
{
}

/// The plan for a project that needs no migration does nothing.
pub proof fn settled_project_has_idle_plan(t: ProjectTreeView)
    requires
        !has_legacy(t),
    ensures
        plan_of(t).moves.len() == 0,
        plan_of(t).write_files.len() == 0,
        plan_of(t).build_file_edits.len() == 0,
        plan_of(t).conflicts.len() == 0,
        !plan_of(t).can_apply,
{
}

proof fn moves_are_free(t: ProjectTreeView, pairs: Seq<(Seq<char>, Seq<char>)>, n: int, k: int)
    requires
        0 <= n <= pairs.len(),
        0 <= k < moves_upto(t, pairs, n).len(),
    ensures
        !exists_at(t, moves_upto(t, pairs, n)[k].to),
        exists|i: int|
            0 <= i < n && #[trigger] pairs[i] == (moves_upto(t, pairs, n)[k].from, moves_upto(
                t,
                pairs,
                n,
            )[k].to),
    decreases n,
{
    if n > 0 {
        let done = moves_upto(t, pairs, n - 1);
        if k < done.len() {
            moves_are_free(t, pairs, n - 1, k);
            let i = choose|i: int| 0 <= i < n - 1 && #[trigger] pairs[i] == (done[k].from, done[k].to);
            assert(pairs[i] == (moves_upto(t, pairs, n)[k].from, moves_upto(t, pairs, n)[k].to));
        } else {
            assert(pairs[n - 1] == (moves_upto(t, pairs, n)[k].from, moves_upto(t, pairs, n)[k].to));
        }
    }
}

/// A migration never overwrites: it moves a file only to where there is none, and
/// it moves only what stands in the wrong place.
pub proof fn moves_never_overwrite(t: ProjectTreeView, k: int)
    requires
        0 <= k < plan_of(t).moves.len(),
    ensures
        !exists_at(t, plan_of(t).moves[k].to),
        misplaced(t).contains((plan_of(t).moves[k].from, plan_of(t).moves[k].to)),
{
    let pairs = misplaced(t);
    moves_are_free(t, pairs, pairs.len() as int, k);
    let i = choose|i: int|
        0 <= i < pairs.len() && #[trigger] pairs[i] == (plan_of(t).moves[k].from, plan_of(
            t,
        ).moves[k].to);
    assert(pairs[i] == (plan_of(t).moves[k].from, plan_of(t).moves[k].to));
}

proof fn moves_and_conflicts(t: ProjectTreeView, pairs: Seq<(Seq<char>, Seq<char>)>, n: int)
    requires
        0 <= n <= pairs.len(),
    ensures
        moves_upto(t, pairs, n).len() + conflicts_upto(t, pairs, n).len() == n,
    decreases n,
{
    if n > 0 {
        moves_and_conflicts(t, pairs, n - 1);
    }
}

/// No misplaced file is passed over: each one moves or is a conflict, and a plan
/// with a conflict cannot be applied.
pub proof fn every_misplaced_file_is_accounted_for(t: ProjectTreeView)
    requires
        has_legacy(t),
    ensures
        plan_of(t).moves.len() + plan_of(t).conflicts.len() == misplaced(t).len(),
        plan_of(t).can_apply <==> plan_of(t).conflicts.len() == 0 && plan_of(t).moves.len() > 0,
{
    moves_and_conflicts(t, misplaced(t), misplaced(t).len() as int);
}

/// A half-migrated project is never reported healthy.
pub proof fn mixed_layout_is_never_ok(t: ProjectTreeView)
    requires
        layout_of(t) == HalLayout::Mixed,
    ensures
        structure_of(t).issues.len() > 0,
        structure_of(t).status == "issues"@,
{
    assert(leftover_issues(t, HalLayout::Mixed).len() > 0);
    assert(structure_issues(t).len() >= leftover_issues(t, HalLayout::Mixed).len());
}

// ---------------------------------------------------------------------------
// Rust contracts
// ---------------------------------------------------------------------------

proof fn absent_members(names: Seq<Seq<char>>, provided: Seq<Seq<char>>, n: int, x: Seq<char>)
    requires
        0 <= n <= names.len(),
    ensures
        absent_upto(names, provided, n).contains(x) <==> names.take(n).contains(x)
            && !provided.contains(x),
    decreases n,
{
    if n > 0 {
        absent_members(names, provided, n - 1, x);
        assert(names.take(n) =~= names.take(n - 1).push(names[n - 1]));
        push_contains(names.take(n - 1), names[n - 1], x);
        push_contains(absent_upto(names, provided, n - 1), names[n - 1], x);
    }
}

/// A method is missing exactly where it is required and not provided.
pub proof fn absent_means_required_and_not_provided(
    names: Seq<Seq<char>>,
    provided: Seq<Seq<char>>,
    x: Seq<char>,
)
    ensures
        absent(names, provided).contains(x) <==> names.contains(x) && !provided.contains(x),
{
    absent_members(names, provided, names.len() as int, x);
    assert(names.take(names.len() as int) =~= names);
}

proof fn drift_rows(
    contracts: Seq<(Seq<char>, Seq<Seq<char>>)>,
    impls: Seq<(Seq<char>, Seq<Seq<char>>)>,
    n: int,
    k: int,
)
    requires
        0 <= n <= contracts.len(),
        0 <= k < drift_upto(contracts, impls, n).len(),
    ensures
        exists|i: int|
            0 <= i < n && drift_upto(contracts, impls, n)[k] == (contracts[i].0, absent(
                #[trigger] contracts[i].1,
                methods_of(impls, contracts[i].0),
            )),
    decreases n,
{
    if n > 0 {
        let done = drift_upto(contracts, impls, n - 1);
        let all = drift_upto(contracts, impls, n);
        if k < done.len() {
            drift_rows(contracts, impls, n - 1, k);
            let i = choose|i: int|
                0 <= i < n - 1 && done[k] == (contracts[i].0, absent(
                    #[trigger] contracts[i].1,
                    methods_of(impls, contracts[i].0),
                ));
            assert(all[k] == done[k]);
            assert(all[k] == (contracts[i].0, absent(
                contracts[i].1,
                methods_of(impls, contracts[i].0),
            )));
        } else {
            assert(all[k] == (contracts[n - 1].0, absent(
                contracts[n - 1].1,
                methods_of(impls, contracts[n - 1].0),
            )));
        }
    }
}

/// Drift never names a method that the contract does not require, as one with a
/// body of its own, nor one that the implementation provides.
pub proof fn drift_is_required_and_not_provided(
    contract: Seq<char>,
    implementation: Seq<char>,
    k: int,
    method: Seq<char>,
)
    requires
        0 <= k < drift_of(contract, implementation).len(),
        drift_of(contract, implementation)[k].1.contains(method),
    ensures
        exists|i: int|
            0 <= i < required_traits(contract).len() && (#[trigger] required_traits(contract)[i]).0
                == drift_of(contract, implementation)[k].0 && required_traits(
                contract,
            )[i].1.contains(method),
        !methods_of(
            trait_impls(implementation),
            drift_of(contract, implementation)[k].0,
        ).contains(method),
{
    let contracts = required_traits(contract);
    let impls = trait_impls(implementation);
    drift_rows(contracts, impls, contracts.len() as int, k);
    let i = choose|i: int|
        0 <= i < contracts.len() && drift_of(contract, implementation)[k] == (contracts[i].0, absent(
            #[trigger] contracts[i].1,
            methods_of(impls, contracts[i].0),
        ));
    absent_means_required_and_not_provided(
        contracts[i].1,
        methods_of(impls, contracts[i].0),
        method,
    );
    assert(contracts[i].0 == drift_of(contract, implementation)[k].0);
}

proof fn complete_has_no_drift(
    contracts: Seq<(Seq<char>, Seq<Seq<char>>)>,
    impls: Seq<(Seq<char>, Seq<Seq<char>>)>,
    n: int,
)
    requires
        0 <= n <= contracts.len(),
        forall|i: int, x: Seq<char>|
            0 <= i < contracts.len() && (#[trigger] contracts[i]).1.contains(x)
                ==> #[trigger] methods_of(impls, contracts[i].0).contains(x),
    ensures
        drift_upto(contracts, impls, n).len() == 0,
    decreases n,
{
    if n > 0 {
        complete_has_no_drift(contracts, impls, n - 1);
        let provided = methods_of(impls, contracts[n - 1].0);
        let missing = absent(contracts[n - 1].1, provided);
        if missing.len() > 0 {
            assert(missing.contains(missing[0]));
            absent_means_required_and_not_provided(contracts[n - 1].1, provided, missing[0]);
            assert(contracts[n - 1].1.contains(missing[0]));
        }
    }
}

/// An implementation that provides every required method has not drifted.
pub proof fn complete_impl_has_no_drift(contract: Seq<char>, implementation: Seq<char>)
    requires
        forall|i: int, x: Seq<char>|
            0 <= i < required_traits(contract).len() && (#[trigger] required_traits(
                contract,
            )[i]).1.contains(x) ==> #[trigger] methods_of(
                trait_impls(implementation),
                required_traits(contract)[i].0,
            ).contains(x),
    ensures
        drift_of(contract, implementation).len() == 0,
{
    complete_has_no_drift(
        required_traits(contract),
        trait_impls(implementation),
        required_traits(contract).len() as int,
    );
}

// ---------------------------------------------------------------------------
// Modules
// ---------------------------------------------------------------------------

/// Cleaning a Python project never takes a source file for an artifact.
pub proof fn python_sources_are_no_artifacts(name: Seq<char>)
    requires
        ends(name, ".py"@),
    ensures
        !is_artifact(name),
{
    reveal_strlit(".py");
    reveal_strlit("build");
    reveal_strlit("dist");
    reveal_strlit(".pytest_cache");
    reveal_strlit("__pycache__");
    reveal_strlit(".egg-info");
    let n = name.len();
    assert(name.subrange(n - 3, n as int)[2] == name[n - 1]);
    assert(name[n - 1] == 'y');
    if ends(name, ".egg-info"@) {
        assert(name.subrange(n - 9, n as int)[8] == name[n - 1]);
    }
}

proof fn replaced_blank_is_gone(s: Seq<char>, i: int)
    requires
        0 <= i,
    ensures
        !replaced_from(s, " "@, "-"@, i).contains(' '),
    decreases s.len() - i,
{
    reveal_strlit(" ");
    reveal_strlit("-");
    let whole = replaced_from(s, " "@, "-"@, i);
    if i < s.len() {
        let rest = replaced_from(s, " "@, "-"@, i + 1);
        replaced_blank_is_gone(s, i + 1);
        let head = if is_at(s, " "@, i) {
            "-"@
        } else {
            seq![s[i]]
        };
        assert(whole == head + rest);
        if s[i] == ' ' {
            assert(s.subrange(i, i + 1) =~= " "@);
            assert(is_at(s, " "@, i));
        }
        if whole.contains(' ') {
            let k = choose|k: int| 0 <= k < whole.len() && whole[k] == ' ';
            if k >= 1 {
                assert(rest[k - 1] == ' ');
            }
        }
    }
}

/// Whatever a project is called, the name of its crate has no blank.
pub proof fn crate_name_has_no_blank(project: Seq<char>)
    ensures
        !crate_name(project).contains(' '),
{
    replaced_blank_is_gone(lowercase(trimmed(project)), 0);
}

} // verus!
