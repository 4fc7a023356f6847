//! What coverage reports of a platform: implemented, missing or drifted.

use vstd::prelude::*;

use crate::contract::method_names;
use crate::coverage::{
    coverage_map, coverage_of, dir_coverage, drifts, ends_in_name, first_part, found_upto, gaps_upto,
    holds_type, impl_from, implements_stem, interface_coverage, is_name_char, is_qualifier, is_type_word,
    name_end, normalized, param_type, param_words, platform_dirs, platforms_coverage, project_contracts,
    starts_with_name, types_upto,
};
use crate::cpp::{rest_without_defaults, HalContractMethodView, HalImplMethodView};
use crate::generate::SPIRE_HAL_STUB_SENTINEL;
use crate::laws_contract::{one_piece, piece_behind};
use crate::laws_text::{
    absent_char_rules_out, absent_text_is_not_replaced, collapsed_texts_have_the_same_words, has_ink, is_one_word,
    trimmed_has_the_ink, white_space_parts_words, word_is_one_word,
};
use crate::project::{content_at, dir_at, names_in, path_join, ProjectTreeView};
use crate::laws_table::other_keys_stay;
use crate::table::{keyed, value_at, with_value_keyed};
use crate::text::{
    after, before, find_from, find_from_is_first, has_text, is_at, joined, joined_upto, pieces, push_contains,
    trimmed, whitespace, word_seq,
};

verus! {

// ---------------------------------------------------------------------------
// Drift
// ---------------------------------------------------------------------------

/// The return types are both written down and are not the same words.
pub open spec fn other_return(a: Seq<char>, b: Seq<char>) -> bool {
    has_ink(a) && has_ink(b) && word_seq(a) != word_seq(b)
}

/// A method has drifted exactly where its parameters are not those of the contract, or
/// both state a return type and it is another one.
pub proof fn drift_is_another_signature(c: HalContractMethodView, m: HalImplMethodView)
    ensures
        drifts(c, m) <==> normalized(c.params) != normalized(m.params) || other_return(c.return_type, m.return_type),
{
    trimmed_has_the_ink(c.return_type);
    trimmed_has_the_ink(m.return_type);
    collapsed_texts_have_the_same_words(c.return_type, m.return_type);
}

/// The method is the first one of the name.
pub open spec fn is_first_of(methods: Seq<HalImplMethodView>, k: int, name: Seq<char>) -> bool {
    0 <= k < methods.len() && methods[k].name == name && forall|j: int|
        0 <= j < k ==> (#[trigger] methods[j]).name != name
}

/// The name of no method.
pub open spec fn is_undefined(methods: Seq<HalImplMethodView>, name: Seq<char>) -> bool {
    forall|j: int| 0 <= j < methods.len() ==> (#[trigger] methods[j]).name != name
}

proof fn first_impl(methods: Seq<HalImplMethodView>, name: Seq<char>, k: int)
    requires
        0 <= k,
    ensures
        impl_from(methods, name, k) is None <==> forall|j: int|
            k <= j < methods.len() ==> (#[trigger] methods[j]).name != name,
        forall|f: int|
            k <= f < methods.len() && (#[trigger] methods[f]).name == name && (forall|j: int|
                k <= j < f ==> (#[trigger] methods[j]).name != name) ==> impl_from(methods, name, k) == Some(
                methods[f],
            ),
    decreases methods.len() - k,
{
    if k < methods.len() {
        first_impl(methods, name, k + 1);
        if methods[k].name == name {
            assert forall|f: int|
                k <= f < methods.len() && (#[trigger] methods[f]).name == name && (forall|j: int|
                    k <= j < f ==> (#[trigger] methods[j]).name != name) implies impl_from(methods, name, k)
                == Some(methods[f]) by {
                if f > k {
                    assert(methods[k].name != name);
                }
            }
        }
    }
}

proof fn drifted_is_reported(
    contract: Seq<HalContractMethodView>,
    methods: Seq<HalImplMethodView>,
    n: int,
    i: int,
)
    requires
        0 <= i < n <= contract.len(),
        impl_from(methods, contract[i].name, 0) is Some,
        drifts(contract[i], impl_from(methods, contract[i].name, 0)->0),
    ensures
        gaps_upto(contract, methods, n).1.contains(
            crate::coverage::drift_text(contract[i], impl_from(methods, contract[i].name, 0)->0),
        ),
    decreases n,
{
    let done = gaps_upto(contract, methods, n - 1).1;
    let text = crate::coverage::drift_text(contract[i], impl_from(methods, contract[i].name, 0)->0);
    if i < n - 1 {
        drifted_is_reported(contract, methods, n - 1, i);
        if let Some(m) = impl_from(methods, contract[n - 1].name, 0) {
            push_contains(done, crate::coverage::drift_text(contract[n - 1], m), text);
        }
    } else {
        push_contains(done, text, text);
    }
}

/// How a signature is told: its return type where it has one, its name and its
/// parameters.
pub open spec fn told(return_type: Seq<char>, name: Seq<char>, params: Seq<char>) -> Seq<char> {
    (if has_ink(return_type) {
        trimmed(return_type) + " "@
    } else {
        Seq::empty()
    }) + name + "("@ + trimmed(params) + ")"@
}

/// A method that is defined with another return type, or with other parameters, is
/// reported as drifted with both signatures, and its interface is not implemented.
pub proof fn another_signature_is_reported(
    contract: Seq<HalContractMethodView>,
    methods: Seq<HalImplMethodView>,
    attributed: bool,
    i: int,
    k: int,
)
    requires
        0 <= i < contract.len(),
        is_first_of(methods, k, contract[i].name),
        other_return(contract[i].return_type, methods[k].return_type) || normalized(contract[i].params)
            != normalized(methods[k].params),
    ensures
        ({
            let c = contract[i];
            let m = methods[k];
            let cov = coverage_of(contract, methods, attributed, false);
            &&& !cov.implemented
            &&& cov.drifted.contains(
                c.name + ": contract `"@ + told(c.return_type, c.name, c.params) + "` → impl `"@ + told(
                    m.return_type,
                    m.name,
                    m.params,
                ) + "`"@,
            )
            &&& !cov.missing_sigs.contains(c)
        }),
{
    let c = contract[i];
    let m = methods[k];
    drift_is_another_signature(c, m);
    first_impl(methods, c.name, 0);
    assert(impl_from(methods, c.name, 0) == Some(m));
    drifted_is_reported(contract, methods, contract.len() as int, i);
    trimmed_has_the_ink(c.return_type);
    trimmed_has_the_ink(m.return_type);
    assert(told(c.return_type, c.name, c.params) =~= crate::coverage::signature(c.return_type, c.name, c.params));
    assert(told(m.return_type, m.name, m.params) =~= crate::coverage::signature(m.return_type, m.name, m.params));
    missing_ones(contract, methods, contract.len() as int);
    let undefined = |c: HalContractMethodView| is_undefined(methods, c.name);
    let missing = gaps_upto(contract, methods, contract.len() as int).0;
    assert(contract.take(contract.len() as int) =~= contract);
    if missing.contains(c) {
        let j = choose|j: int| 0 <= j < missing.len() && missing[j] == c;
        contract.lemma_filter_pred(undefined, j);
        assert(is_undefined(methods, c.name));
        assert(methods[k].name != c.name);
    }
}

proof fn missing_ones(contract: Seq<HalContractMethodView>, methods: Seq<HalImplMethodView>, n: int)
    requires
        0 <= n <= contract.len(),
    ensures
        gaps_upto(contract, methods, n).0 == contract.take(n).filter(
            |c: HalContractMethodView| is_undefined(methods, c.name),
        ),
        forall|i: int|
            0 <= i < n && !is_undefined(methods, (#[trigger] contract[i]).name) ==> impl_from(
                methods,
                contract[i].name,
                0,
            ) is Some,
    decreases n,
{
    reveal(Seq::filter);
    let undefined = |c: HalContractMethodView| is_undefined(methods, c.name);
    if n > 0 {
        missing_ones(contract, methods, n - 1);
        assert(contract.take(n).drop_last() =~= contract.take(n - 1));
        assert(contract.take(n).last() == contract[n - 1]);
        first_impl(methods, contract[n - 1].name, 0);
    } else {
        assert(contract.take(0).filter(undefined) =~= Seq::empty());
    }
}

/// Missing are exactly the methods of the contract that nothing defines, in order, by
/// name and in full; what is there, and whether a file is, is told as it is.
pub proof fn missing_is_what_nothing_defines(
    contract: Seq<HalContractMethodView>,
    methods: Seq<HalImplMethodView>,
    attributed: bool,
)
    ensures
        ({
            let cov = coverage_of(contract, methods, attributed, false);
            let missing = contract.filter(|c: HalContractMethodView| is_undefined(methods, c.name));
            &&& cov.missing_sigs == missing
            &&& cov.missing == missing.map_values(|c: HalContractMethodView| c.name)
            &&& cov.has_impl == attributed
            &&& !cov.is_stub
            &&& missing.len() > 0 ==> !cov.implemented
        }),
{
    missing_ones(contract, methods, contract.len() as int);
    assert(contract.take(contract.len() as int) =~= contract);
    let missing = contract.filter(|c: HalContractMethodView| is_undefined(methods, c.name));
    assert(method_names(missing) =~= missing.map_values(|c: HalContractMethodView| c.name));
}

proof fn nothing_is_reported(contract: Seq<HalContractMethodView>, methods: Seq<HalImplMethodView>, n: int)
    requires
        0 <= n <= contract.len(),
        forall|i: int|
            0 <= i < n ==> impl_from(methods, (#[trigger] contract[i]).name, 0) is Some && !drifts(
                contract[i],
                impl_from(methods, contract[i].name, 0)->0,
            ),
    ensures
        gaps_upto(contract, methods, n).0.len() == 0,
        gaps_upto(contract, methods, n).1.len() == 0,
    decreases n,
{
    if n > 0 {
        nothing_is_reported(contract, methods, n - 1);
        assert(impl_from(methods, contract[n - 1].name, 0) is Some);
    }
}

/// An interface whose methods are all defined, each with the contract's parameters and
/// with its return type or none, is implemented, and nothing is held against it.
pub proof fn matching_methods_implement(
    contract: Seq<HalContractMethodView>,
    methods: Seq<HalImplMethodView>,
    attributed: bool,
)
    requires
        forall|i: int|
            0 <= i < contract.len() ==> exists|k: int|
                is_first_of(methods, k, (#[trigger] contract[i]).name) && normalized(contract[i].params)
                    == normalized((#[trigger] methods[k]).params) && !other_return(
                    contract[i].return_type,
                    methods[k].return_type,
                ),
    ensures
        ({
            let cov = coverage_of(contract, methods, attributed, false);
            cov.implemented && cov.missing.len() == 0 && cov.drifted.len() == 0
        }),
{
    assert forall|i: int| 0 <= i < contract.len() implies impl_from(methods, (#[trigger] contract[i]).name, 0) is Some
        && !drifts(contract[i], impl_from(methods, contract[i].name, 0)->0) by {
        let k = choose|k: int|
            is_first_of(methods, k, contract[i].name) && normalized(contract[i].params) == normalized(
                (#[trigger] methods[k]).params,
            ) && !other_return(contract[i].return_type, methods[k].return_type);
        first_impl(methods, contract[i].name, 0);
        drift_is_another_signature(contract[i], methods[k]);
    }
    nothing_is_reported(contract, methods, contract.len() as int);
}

// ---------------------------------------------------------------------------
// Parameters
// ---------------------------------------------------------------------------

/// A plain identifier.
pub open spec fn is_identifier(s: Seq<char>) -> bool {
    &&& s.len() > 0
    &&& forall|i: int| 0 <= i < s.len() ==> is_name_char(#[trigger] s[i])
    &&& !('0' <= s[0] <= '9')
}

/// A parameter as it is usually written: a type of one word, and a name that is no
/// word of a type.
pub open spec fn is_plain_param(p: (Seq<char>, Seq<char>)) -> bool {
    is_identifier(p.0) && is_identifier(p.1) && !is_qualifier(p.0) && !is_type_word(p.1)
}

/// A parameter list as it is usually written.
pub open spec fn param_list(params: Seq<(Seq<char>, Seq<char>)>) -> Seq<char> {
    joined(Seq::new(params.len(), |i: int| params[i].0 + " "@ + params[i].1), ", "@)
}

proof fn identifier_is_plain(s: Seq<char>)
    requires
        is_identifier(s),
    ensures
        is_one_word(s),
        !s.contains(','),
        !s.contains('='),
        !s.contains('&'),
        !s.contains('*'),
        !s.contains(' '),
        name_end(s, 0) == s.len(),
{
    assert forall|i: int| 0 <= i < s.len() implies !whitespace(#[trigger] s[i]) && s[i] != ',' && s[i] != '='
        && s[i] != '&' && s[i] != '*' && s[i] != ' ' by {
        assert(is_name_char(s[i]));
    }
    name_runs_on(s, 0);
}

proof fn name_runs_on(s: Seq<char>, i: int)
    requires
        0 <= i <= s.len(),
        forall|k: int| 0 <= k < s.len() ==> is_name_char(#[trigger] s[k]),
    ensures
        name_end(s, i) == s.len(),
    decreases s.len() - i,
{
    if i < s.len() {
        assert(is_name_char(s[i]));
        name_runs_on(s, i + 1);
    }
}

/// The text of one parameter, with or without a blank before it, has its type.
proof fn plain_param_has_its_type(p: (Seq<char>, Seq<char>), text: Seq<char>)
    requires
        is_plain_param(p),
        text == p.0 + " "@ + p.1 || text == " "@ + (p.0 + " "@ + p.1),
    ensures
        param_type(text) == p.0,
        !text.contains(','),
{
    reveal_strlit(" ");
    reveal_strlit("=");
    reveal_strlit("&");
    reveal_strlit("*");
    reveal_strlit(" &");
    reveal_strlit(" *");
    identifier_is_plain(p.0);
    identifier_is_plain(p.1);
    let bare = p.0 + " "@ + p.1;
    assert(bare =~= p.0 + seq![' '] + p.1);
    white_space_parts_words(p.0, ' ', p.1);
    word_is_one_word(p.0);
    word_is_one_word(p.1);
    assert(word_seq(bare) =~= seq![p.0, p.1]);
    let none = Seq::<char>::empty();
    word_is_one_word(none);
    white_space_parts_words(none, ' ', bare);
    assert(none + seq![' '] + bare =~= " "@ + bare);
    assert(word_seq(none) + word_seq(bare) =~= word_seq(bare));
    let words = seq![p.0, p.1];
    assert forall|i: int| 0 <= i < text.len() implies text[i] != ',' && text[i] != '=' && text[i] != '&' && text[i]
        != '*' by {
        let k = if text == bare { i } else { i - 1 };
        if k >= 0 {
            assert(text[i] == bare[k]);
            if k < p.0.len() {
                assert(p.0.contains(p.0[k]));
            } else if k > p.0.len() {
                assert(bare[k] == p.1[k - p.0.len() - 1]);
                assert(p.1.contains(p.1[k - p.0.len() - 1]));
            }
        }
    }
    assert("="@[0] == '=' && "&"@[0] == '&' && "*"@[0] == '*');
    absent_char_rules_out(text, "="@, '=');
    absent_char_rules_out(text, "&"@, '&');
    absent_char_rules_out(text, "*"@, '*');
    find_from_is_first(text, "="@, 0);
    assert(find_from(text, "="@, 0) is None) by {
        if let Some(k) = find_from(text, "="@, 0) {
            assert(is_at(text, "="@, k));
        }
    }
    absent_text_is_not_replaced(text, "&"@, "& "@);
    absent_text_is_not_replaced(text, "*"@, "* "@);
    assert(param_words(text) == words);
    assert(before(p.1, p.1.len() as int) =~= p.1);
    assert(starts_with_name(p.1));
    assert(!is_qualifier(words[0]));
    assert(holds_type(words, 1));
    assert(ends_in_name(words));
    assert(words.drop_last() =~= seq![p.0]);
    assert(joined(seq![p.0], " "@) == p.0);
    assert(" &"@[1] == '&' && " *"@[1] == '*');
    absent_char_rules_out(p.0, " &"@, '&');
    absent_char_rules_out(p.0, " *"@, '*');
    absent_text_is_not_replaced(p.0, " &"@, "&"@);
    absent_text_is_not_replaced(p.0, " *"@, "*"@);
    assert(after(p.1, p.1.len() as int) =~= Seq::empty());
    assert(p.0 + Seq::<char>::empty() =~= p.0);
}

/// The pieces of a parameter list: one for each parameter.
spec fn param_pieces(params: Seq<(Seq<char>, Seq<char>)>, n: int) -> Seq<Seq<char>> {
    Seq::new(
        n as nat,
        |i: int|
            if i == 0 {
                params[i].0 + " "@ + params[i].1
            } else {
                " "@ + (params[i].0 + " "@ + params[i].1)
            },
    )
}

proof fn params_stand_apart(params: Seq<(Seq<char>, Seq<char>)>, n: int)
    requires
        1 <= n <= params.len(),
        forall|i: int| 0 <= i < params.len() ==> is_plain_param(#[trigger] params[i]),
    ensures
        ({
            let all = Seq::new(params.len(), |i: int| params[i].0 + " "@ + params[i].1);
            pieces(joined_upto(all, ", "@, n), ',') == param_pieces(params, n)
        }),
    decreases n,
{
    reveal_strlit(", ");
    reveal_strlit(" ");
    let all = Seq::new(params.len(), |i: int| params[i].0 + " "@ + params[i].1);
    let p = params[n - 1];
    assert(is_plain_param(p));
    let bare = p.0 + " "@ + p.1;
    plain_param_has_its_type(p, bare);
    plain_param_has_its_type(p, " "@ + bare);
    if n == 1 {
        one_piece(bare, ',', 0, 0);
        assert(bare.subrange(0, bare.len() as int) =~= bare);
        assert(joined_upto(all, ", "@, 1) == bare);
        assert(param_pieces(params, 1) =~= seq![bare]);
    } else {
        params_stand_apart(params, n - 1);
        let done = joined_upto(all, ", "@, n - 1);
        let last = " "@ + bare;
        assert(joined_upto(all, ", "@, n) =~= done + seq![','] + last);
        piece_behind(done, ',', last);
        assert(param_pieces(params, n) =~= param_pieces(params, n - 1).push(last));
    }
}

proof fn types_of_params(params: Seq<(Seq<char>, Seq<char>)>, n: int)
    requires
        0 <= n <= params.len(),
        forall|i: int| 0 <= i < params.len() ==> is_plain_param(#[trigger] params[i]),
    ensures
        types_upto(param_pieces(params, params.len() as int), n) == Seq::new(n as nat, |i: int| params[i].0),
    decreases n,
{
    if n > 0 {
        types_of_params(params, n - 1);
        assert(is_plain_param(params[n - 1]));
        let text = param_pieces(params, params.len() as int)[n - 1];
        plain_param_has_its_type(params[n - 1], text);
        assert(Seq::new(n as nat, |i: int| params[i].0) =~= Seq::new((n - 1) as nat, |i: int| params[i].0).push(
            params[n - 1].0,
        ));
    } else {
        assert(Seq::new(0, |i: int| params[i].0) =~= Seq::empty());
    }
}

proof fn defaults_are_absent(s: Seq<char>, depth: int, i: int)
    requires
        0 <= i <= s.len(),
        !s.contains('='),
    ensures
        rest_without_defaults(s, depth, false, None, i) == s.subrange(i, s.len() as int),
    decreases s.len() - i,
{
    if i < s.len() {
        assert(s.contains(s[i]));
        defaults_are_absent(s, 0, i + 1);
        defaults_are_absent(s, crate::cpp::bracket_depth(depth, s[i], false), i + 1);
        assert(s.subrange(i, s.len() as int) =~= seq![s[i]] + s.subrange(i + 1, s.len() as int));
    } else {
        assert(s.subrange(i, s.len() as int) =~= Seq::empty());
    }
}

proof fn list_has_no_default(params: Seq<(Seq<char>, Seq<char>)>, n: int)
    requires
        0 <= n <= params.len(),
        forall|i: int| 0 <= i < params.len() ==> is_plain_param(#[trigger] params[i]),
    ensures
        ({
            let all = Seq::new(params.len(), |i: int| params[i].0 + " "@ + params[i].1);
            !joined_upto(all, ", "@, n).contains('=')
        }),
    decreases n,
{
    reveal_strlit(", ");
    reveal_strlit(" ");
    let all = Seq::new(params.len(), |i: int| params[i].0 + " "@ + params[i].1);
    if n > 0 {
        list_has_no_default(params, n - 1);
        let p = params[n - 1];
        assert(is_plain_param(p));
        identifier_is_plain(p.0);
        identifier_is_plain(p.1);
        let bare = p.0 + " "@ + p.1;
        let done = joined_upto(all, ", "@, n - 1);
        let now = joined_upto(all, ", "@, n);
        assert forall|i: int| 0 <= i < bare.len() implies bare[i] != '=' by {
            if i < p.0.len() {
                assert(p.0.contains(p.0[i]));
            } else if i > p.0.len() {
                assert(p.1.contains(p.1[i - p.0.len() - 1]));
            }
        }
        assert forall|i: int| 0 <= i < now.len() implies now[i] != '=' by {
            if n == 1 {
                assert(now == bare);
            } else if i < done.len() {
                assert(now[i] == done[i]);
                assert(done.contains(done[i]));
            } else if i >= done.len() + 2 {
                assert(now[i] == bare[i - done.len() - 2]);
            }
        }
    }
}

/// Of a parameter list the types count, each of them and in their order, and the names
/// do not.
pub proof fn types_of_a_parameter_list_count(params: Seq<(Seq<char>, Seq<char>)>)
    requires
        params.len() > 0,
        forall|i: int| 0 <= i < params.len() ==> is_plain_param(#[trigger] params[i]),
    ensures
        normalized(param_list(params)) == joined(Seq::new(params.len(), |i: int| params[i].0), ", "@),
{
    let n = params.len() as int;
    let text = param_list(params);
    list_has_no_default(params, n);
    defaults_are_absent(text, 0, 0);
    assert(text.subrange(0, text.len() as int) =~= text);
    params_stand_apart(params, n);
    types_of_params(params, n);
}

// ---------------------------------------------------------------------------
// Files
// ---------------------------------------------------------------------------

/// A file belongs to an interface exactly where its stem is the interface's, or holds
/// it between underscores, dots and ends.
pub proof fn file_belongs_by_whole_components(file: Seq<char>, stem: Seq<char>)
    requires
        stem.len() > 0,
    ensures
        implements_stem(file, stem) <==> exists|a: Seq<char>, b: Seq<char>|
            file == #[trigger] (a + stem + b) && (a.len() == 0 || a.last() == '_' || a.last() == '.') && (b.len()
                == 0 || b[0] == '_' || b[0] == '.'),
{
    let none = Seq::<char>::empty();
    if file == stem {
        assert(file =~= none + stem + none);
    } else if implements_stem(file, stem) {
        let i = choose|i: int| #[trigger] crate::coverage::component_at(file, stem, i);
        let a = file.subrange(0, i);
        let b = file.subrange(i + stem.len(), file.len() as int);
        assert(file =~= a + stem + b);
    }
    if exists|a: Seq<char>, b: Seq<char>|
        file == #[trigger] (a + stem + b) && (a.len() == 0 || a.last() == '_' || a.last() == '.') && (b.len() == 0
            || b[0] == '_' || b[0] == '.') {
        let (a, b) = choose|a: Seq<char>, b: Seq<char>|
            file == #[trigger] (a + stem + b) && (a.len() == 0 || a.last() == '_' || a.last() == '.') && (b.len()
                == 0 || b[0] == '_' || b[0] == '.');
        let i = a.len() as int;
        assert(file.subrange(i, i + stem.len()) =~= stem);
        assert(crate::coverage::component_at(file, stem, i));
    }
}

proof fn stub_is_seen(t: ProjectTreeView, dir: Seq<char>, names: Seq<Seq<char>>, stem: Seq<char>, n: int)
    requires
        0 <= n <= names.len(),
    ensures
        found_upto(t, dir, names, stem, n).0 <==> exists|i: int|
            0 <= i < n && implements_stem(first_part(#[trigger] names[i]), stem) && (content_at(
                t,
                path_join(dir, names[i]),
            ) matches Some(c) && has_text(c, SPIRE_HAL_STUB_SENTINEL@)),
    decreases n,
{
    if n > 0 {
        stub_is_seen(t, dir, names, stem, n - 1);
        let now = implements_stem(first_part(names[n - 1]), stem) && (content_at(t, path_join(dir, names[n - 1])) matches Some(
            c,
        ) && has_text(c, SPIRE_HAL_STUB_SENTINEL@));
        if found_upto(t, dir, names, stem, n - 1).0 {
            let i = choose|i: int|
                0 <= i < n - 1 && implements_stem(first_part(#[trigger] names[i]), stem) && (content_at(
                    t,
                    path_join(dir, names[i]),
                ) matches Some(c) && has_text(c, SPIRE_HAL_STUB_SENTINEL@));
            assert(implements_stem(first_part(names[i]), stem));
        }
        if now {
            assert(implements_stem(first_part(names[n - 1]), stem));
        }
    }
}

/// An interface counts as a stub on a platform exactly where one of the files that
/// belong to it there carries the mark of a pending implementation; then it is not
/// implemented, whatever else is there.
pub proof fn marked_file_makes_a_stub(
    contract: Seq<HalContractMethodView>,
    stem: Seq<char>,
    t: ProjectTreeView,
    dir: Seq<char>,
)
    ensures
        ({
            let cov = interface_coverage(contract, stem, t, dir);
            let names = names_in(t, dir);
            &&& cov.is_stub <==> dir_at(t, dir) && exists|i: int|
                0 <= i < names.len() && implements_stem(first_part(#[trigger] names[i]), stem) && (content_at(
                    t,
                    path_join(dir, names[i]),
                ) matches Some(c) && has_text(c, SPIRE_HAL_STUB_SENTINEL@))
            &&& cov.is_stub ==> !cov.implemented && cov.missing_sigs == contract
        }),
{
    let names = names_in(t, dir);
    stub_is_seen(t, dir, names, stem, names.len() as int);
}

// ---------------------------------------------------------------------------
// The map
// ---------------------------------------------------------------------------

proof fn directory_is_covered(
    t: ProjectTreeView,
    contracts: Seq<(Seq<char>, Seq<HalContractMethodView>)>,
    dir: Seq<char>,
    n: int,
    i: int,
)
    requires
        0 <= n <= contracts.len(),
        0 <= i < contracts.len(),
        forall|a: int, b: int| 0 <= a < b < contracts.len() ==> (#[trigger] contracts[a]).0 != (#[trigger] contracts[b]).0,
    ensures
        keyed(dir_coverage(t, contracts, dir, n)),
        i < n ==> value_at(dir_coverage(t, contracts, dir, n), contracts[i].0) == Some(
            interface_coverage(contracts[i].1, contracts[i].0, t, dir),
        ),
    decreases n,
{
    if n > 0 {
        directory_is_covered(t, contracts, dir, n - 1, i);
        let done = dir_coverage(t, contracts, dir, n - 1);
        let c = contracts[n - 1];
        with_value_keyed(done, c.0, interface_coverage(c.1, c.0, t, dir));
        if i < n - 1 {
            assert(contracts[i].0 != contracts[n - 1].0);
            other_keys_stay(done, c.0, interface_coverage(c.1, c.0, t, dir), contracts[i].0);
        }
    }
}

proof fn platforms_are_covered(
    t: ProjectTreeView,
    contracts: Seq<(Seq<char>, Seq<HalContractMethodView>)>,
    platforms: Seq<(Seq<char>, Seq<char>)>,
    n: int,
    i: int,
)
    requires
        0 <= n <= platforms.len(),
        0 <= i < platforms.len(),
        forall|a: int, b: int| 0 <= a < b < platforms.len() ==> (#[trigger] platforms[a]).0 != (#[trigger] platforms[b]).0,
    ensures
        keyed(platforms_coverage(t, contracts, platforms, n)),
        i < n ==> value_at(platforms_coverage(t, contracts, platforms, n), platforms[i].0) == Some(
            dir_coverage(t, contracts, platforms[i].1, contracts.len() as int),
        ),
    decreases n,
{
    if n > 0 {
        platforms_are_covered(t, contracts, platforms, n - 1, i);
        let done = platforms_coverage(t, contracts, platforms, n - 1);
        let p = platforms[n - 1];
        let value = dir_coverage(t, contracts, p.1, contracts.len() as int);
        with_value_keyed(done, p.0, value);
        if i < n - 1 {
            assert(platforms[i].0 != platforms[n - 1].0);
            other_keys_stay(done, p.0, value, platforms[i].0);
        }
    }
}

proof fn keyed_is_distinct<V>(s: Seq<(Seq<char>, V)>)
    requires
        keyed(s),
    ensures
        forall|a: int, b: int| 0 <= a < b < s.len() ==> (#[trigger] s[a]).0 != (#[trigger] s[b]).0,
{
    assert forall|a: int, b: int| 0 <= a < b < s.len() implies (#[trigger] s[a]).0 != (#[trigger] s[b]).0 by {
        assert(crate::text::less(s[a].0, s[b].0));
        crate::text::less_irreflexive(s[a].0);
    }
}

proof fn contracts_are_keyed(
    t: ProjectTreeView,
    dir: Seq<char>,
    names: Seq<Seq<char>>,
    table: Seq<(Seq<char>, Seq<HalContractMethodView>)>,
    n: int,
)
    requires
        keyed(table),
    ensures
        keyed(crate::coverage::contracts_upto(t, dir, names, table, n)),
    decreases n,
{
    if n > 0 {
        contracts_are_keyed(t, dir, names, table, n - 1);
        let done = crate::coverage::contracts_upto(t, dir, names, table, n - 1);
        if let Some(content) = content_at(t, path_join(dir, names[n - 1])) {
            let classes = crate::cpp::contract_classes(content);
            let methods = crate::contract::flat_methods(classes, classes.len() as int);
            crate::table::with_new_keyed(done, crate::project::stem_of(names[n - 1]), methods);
        }
    }
}

proof fn canonical_is_keyed(t: ProjectTreeView, names: Seq<Seq<char>>, n: int)
    ensures
        keyed(crate::coverage::canonical_upto(t, names, n)),
    decreases n,
{
    if n > 0 {
        canonical_is_keyed(t, names, n - 1);
        crate::table::with_new_keyed(
            crate::coverage::canonical_upto(t, names, n - 1),
            names[n - 1],
            path_join("hal/implementations"@, names[n - 1]),
        );
    }
}

proof fn legacy_is_keyed(t: ProjectTreeView, names: Seq<Seq<char>>, table: Seq<(Seq<char>, Seq<char>)>, n: int)
    requires
        keyed(table),
    ensures
        keyed(crate::coverage::legacy_upto(t, names, table, n)),
    decreases n,
{
    if n > 0 {
        legacy_is_keyed(t, names, table, n - 1);
        crate::table::with_new_keyed(
            crate::coverage::legacy_upto(t, names, table, n - 1),
            names[n - 1],
            path_join(names[n - 1], "hal"@),
        );
    }
}

/// The map has every platform with every interface, and for each the coverage of that
/// contract by that platform's directory.
pub proof fn every_pair_is_in_the_map(t: ProjectTreeView, p: int, c: int)
    requires
        0 <= p < platform_dirs(t).len(),
        0 <= c < project_contracts(t).len(),
    ensures
        ({
            let (plat, dir) = platform_dirs(t)[p];
            let (stem, methods) = project_contracts(t)[c];
            value_at(coverage_map(t), plat) matches Some(entries) && value_at(entries, stem) == Some(
                interface_coverage(methods, stem, t, dir),
            )
        }),
{
    let contracts = project_contracts(t);
    let platforms = platform_dirs(t);
    let a = names_in(t, "hal/api"@);
    let b = names_in(t, "toolkit/src/hal/api"@);
    contracts_are_keyed(t, "hal/api"@, a, Seq::empty(), a.len() as int);
    let first = crate::coverage::contracts_with(t, "hal/api"@, Seq::empty());
    contracts_are_keyed(t, "toolkit/src/hal/api"@, b, first, b.len() as int);
    keyed_is_distinct(contracts);
    let own = names_in(t, "hal/implementations"@);
    let top = names_in(t, Seq::empty());
    canonical_is_keyed(t, own, own.len() as int);
    let canonical = if dir_at(t, "hal/implementations"@) {
        crate::coverage::canonical_upto(t, own, own.len() as int)
    } else {
        Seq::empty()
    };
    legacy_is_keyed(t, top, canonical, top.len() as int);
    keyed_is_distinct(platforms);
    platforms_are_covered(t, contracts, platforms, platforms.len() as int, p);
    directory_is_covered(t, contracts, platforms[p].1, contracts.len() as int, c);
}

} // verus!
