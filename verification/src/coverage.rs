//! How far platforms implement the HAL contracts, method by method.

use vstd::prelude::*;

use crate::contract::{flat_methods, flatten_methods, method_names, names_of_methods};
use crate::cpp::{
    as_type, contract_classes, copy_hal_contract_methods, definitions, extract_contract_methods_cpp,
    drop_defaults, extract_cpp_method_definitions_ts, type_text, HalContractMethod, HalContractMethodView, HalImplMethod,
    HalImplMethodView, without_defaults,
};
use crate::generate::{is_hal_stub, is_stub_text};
use crate::project::{
    content_at, dir_at, file_at, file_stem, has_extension, join_path, names_in, path_join, stem_of, with_extension,
    ProjectTree, ProjectTreeView,
};
use crate::table::{find_key, put, put_new, value_at, with_new, with_value};
use crate::text::{
    add_item, after, before, begins, chars_of, copy_texts, find, find_from, head_of, is_at, join, joined,
    matches_at, pieces, replace, replaced, same, split, starts_with, tail_of, trim, trimmed, word_seq, words,
};

verus! {

// ---------------------------------------------------------------------------
// Attribution and signatures
// ---------------------------------------------------------------------------

/// A character that bounds a component of a file name.
pub open spec fn bounds_component(c: char) -> bool {
    c == '_' || c == '.'
}

/// `stem` stands in `file_stem` at `i` as a whole component.
pub open spec fn component_at(file_stem: Seq<char>, stem: Seq<char>, i: int) -> bool {
    &&& is_at(file_stem, stem, i)
    &&& i == 0 || bounds_component(file_stem[i - 1])
    &&& i + stem.len() == file_stem.len() || bounds_component(file_stem[i + stem.len()])
}

/// The file is attributed to the interface: its stem is the interface's, or
/// holds it as a whole component.
pub open spec fn implements_stem(file_stem: Seq<char>, stem: Seq<char>) -> bool {
    file_stem == stem || (stem.len() > 0 && exists|i: int| #[trigger] component_at(file_stem, stem, i))
}

/// Whether a file stem attributes the file to an interface stem: the stem
/// stands in it between underscores, dots and ends, so `mpp_h264_encoder` is
/// attributed to `h264_encoder`.
pub fn file_implements_stem(file_stem: &str, stem: &str) -> (r: bool)
    ensures
        r == implements_stem(file_stem@, stem@),
{
    if same(file_stem, stem) {
        return true;
    }
    let chars = chars_of(file_stem);
    let needle = chars_of(stem);
    if needle.len() == 0 || needle.len() > chars.len() {
        return false;
    }
    let mut i: usize = 0;
    let last: usize = chars.len() - needle.len();
    while i <= last
        invariant
            chars@ == file_stem@,
            needle@ == stem@,
            needle@.len() > 0,
            last == chars.len() - needle.len(),
            i <= last + 1,
            forall|j: int| 0 <= j < i ==> !#[trigger] component_at(file_stem@, stem@, j),
        decreases last + 1 - i,
    {
        if matches_at(&chars, &needle, i) {
            let end: usize = i + needle.len();
            let before_ok = i == 0 || chars[i - 1] == '_' || chars[i - 1] == '.';
            let after_ok = end == chars.len() || chars[end] == '_' || chars[end] == '.';
            if before_ok && after_ok {
                assert(component_at(file_stem@, stem@, i as int));
                return true;
            }
        }
        i = i + 1;
    }
    false
}

/// A word that says how a type is meant and is none by itself.
pub open spec fn is_qualifier(w: Seq<char>) -> bool {
    w == "const"@ || w == "volatile"@ || w == "struct"@ || w == "class"@ || w == "enum"@ || w
        == "union"@ || w == "typename"@
}

/// A word that is always part of a type.
pub open spec fn is_type_word(w: Seq<char>) -> bool {
    is_qualifier(w) || w == "void"@ || w == "bool"@ || w == "char"@ || w == "short"@ || w == "int"@
        || w == "long"@ || w == "float"@ || w == "double"@ || w == "signed"@ || w == "unsigned"@ || w
        == "auto"@
}

/// A character of a C++ identifier.
pub open spec fn is_name_char(c: char) -> bool {
    ('a' <= c && c <= 'z') || ('A' <= c && c <= 'Z') || ('0' <= c && c <= '9') || c == '_'
}

/// The end of the identifier that stands in a word at `i`.
pub open spec fn name_end(w: Seq<char>, i: int) -> int
    decreases w.len() - i,
{
    if i < 0 || i >= w.len() || !is_name_char(w[i]) {
        i
    } else {
        name_end(w, i + 1)
    }
}

/// The word starts with a name, which nothing follows but array bounds or a
/// closing parenthesis.
pub open spec fn starts_with_name(w: Seq<char>) -> bool {
    let k = name_end(w, 0);
    &&& k > 0
    &&& !('0' <= w[0] && w[0] <= '9')
    &&& !is_type_word(before(w, k))
    &&& k < w.len() ==> w[k] == '[' || w[k] == ')'
}

/// One of the first `n` words is more than a qualifier.
pub open spec fn holds_type(words: Seq<Seq<char>>, n: int) -> bool {
    exists|i: int| 0 <= i < n && !is_qualifier(#[trigger] words[i])
}

/// The last word of a parameter names it: a type stands before it, and it is no
/// part of one.
pub open spec fn ends_in_name(words: Seq<Seq<char>>) -> bool {
    words.len() > 0 && starts_with_name(words.last()) && holds_type(words, words.len() - 1)
}

/// The words of a parameter without its default value; `&` and `*` end a word.
pub open spec fn param_words(p: Seq<char>) -> Seq<Seq<char>> {
    let head = match find_from(p, "="@, 0) {
        Some(k) => before(p, k),
        None => p,
    };
    word_seq(replaced(replaced(head, "&"@, "& "@), "*"@, "* "@))
}

/// The type of one parameter: without default value and without its name. A
/// parameter that has no name keeps all its words.
pub open spec fn param_type(p: Seq<char>) -> Seq<char> {
    let words = param_words(p);
    if ends_in_name(words) {
        as_type(words.drop_last()) + after(words.last(), name_end(words.last(), 0))
    } else {
        as_type(words)
    }
}

/// The types of the first `n` parameters, empty ones left out.
pub open spec fn types_upto(parts: Seq<Seq<char>>, n: int) -> Seq<Seq<char>>
    decreases n,
{
    if n <= 0 {
        Seq::empty()
    } else {
        let done = types_upto(parts, n - 1);
        let t = param_type(parts[n - 1]);
        if t.len() == 0 {
            done
        } else {
            done.push(t)
        }
    }
}

/// A parameter list reduced to its types.
pub open spec fn normalized(params: Seq<char>) -> Seq<char> {
    let parts = pieces(without_defaults(params), ',');
    joined(types_upto(parts, parts.len() as int), ", "@)
}

fn qualifies(w: &str) -> (r: bool)
    ensures
        r == is_qualifier(w@),
{
    same(w, "const") || same(w, "volatile") || same(w, "struct") || same(w, "class") || same(w, "enum") || same(
        w,
        "union",
    ) || same(w, "typename")
}

/// Whether a word is always part of a type.
pub fn is_of_type(w: &str) -> (r: bool)
    ensures
        r == is_type_word(w@),
{
    qualifies(w) || same(w, "void") || same(w, "bool") || same(w, "char") || same(w, "short") || same(w, "int")
        || same(w, "long") || same(w, "float") || same(w, "double") || same(w, "signed") || same(w, "unsigned")
        || same(w, "auto")
}

fn find_name_end(chars: &Vec<char>) -> (r: usize)
    ensures
        r == name_end(chars@, 0),
        r <= chars@.len(),
{
    let mut i: usize = 0;
    while i < chars.len()
        invariant
            i <= chars@.len(),
            name_end(chars@, 0) == name_end(chars@, i as int),
        decreases chars@.len() - i,
    {
        let c = chars[i];
        if !(('a' <= c && c <= 'z') || ('A' <= c && c <= 'Z') || ('0' <= c && c <= '9') || c == '_') {
            return i;
        }
        i = i + 1;
    }
    i
}

/// Whether one of the first `n` words is more than a qualifier.
pub fn some_type(words: &Vec<String>, n: usize) -> (r: bool)
    requires
        n <= words@.len(),
    ensures
        r == holds_type(words.deep_view(), n as int),
{
    let ghost all = words.deep_view();
    let mut i: usize = 0;
    while i < n
        invariant
            i <= n <= words@.len(),
            all == words.deep_view(),
            forall|j: int| 0 <= j < i ==> is_qualifier(#[trigger] all[j]),
        decreases n - i,
    {
        if !qualifies(words[i].as_str()) {
            assert(!is_qualifier(all[i as int]));
            return true;
        }
        i = i + 1;
    }
    false
}

/// The words of a parameter without its default value.
pub fn words_of_param(p: &str) -> (r: Vec<String>)
    ensures
        r.deep_view() == param_words(p@),
{
    proof {
        reveal_strlit("&");
        reveal_strlit("*");
    }
    let head = match find(p, "=") {
        Some(k) => head_of(p, k),
        None => p,
    };
    let head = replace(head, "&", "& ");
    let head = replace(head.as_str(), "*", "* ");
    words(head.as_str())
}

fn type_of_param(p: &str) -> (r: String)
    ensures
        r@ == param_type(p@),
{
    let mut list = words_of_param(p);
    let ghost all = list.deep_view();
    assert(all == param_words(p@));
    if list.len() == 0 {
        return type_text(&list);
    }
    let last: usize = list.len() - 1;
    assert(all.last() == list[last as int]@);
    let chars = chars_of(list[last].as_str());
    let k: usize = find_name_end(&chars);
    let named = k > 0 && !('0' <= chars[0] && chars[0] <= '9') && !is_of_type(
        head_of(list[last].as_str(), k),
    ) && (k == chars.len() || chars[k] == '[' || chars[k] == ')');
    if named && some_type(&list, last) {
        let rest = tail_of(list[last].as_str(), k).to_owned();
        let _ = list.pop();
        assert(list.deep_view() =~= all.drop_last());
        let mut text = type_text(&list);
        text.append(rest.as_str());
        text
    } else {
        type_text(&list)
    }
}

/// A parameter list for comparison: default values and parameter names dropped,
/// white space collapsed, so that only the types count. What has no name keeps
/// its whole type.
pub fn normalize_params(params: &str) -> (r: String)
    ensures
        r@ == normalized(params@),
{
    let parts = split(drop_defaults(params).as_str(), ',');
    let mut out: Vec<String> = Vec::new();
    assert(out.deep_view() =~= Seq::empty());
    let mut i: usize = 0;
    while i < parts.len()
        invariant
            i <= parts@.len(),
            out.deep_view() == types_upto(parts.deep_view(), i as int),
        decreases parts@.len() - i,
    {
        let t = type_of_param(parts[i].as_str());
        if t.as_str().unicode_len() > 0 {
            add_item(&mut out, t);
        }
        i = i + 1;
    }
    join(&out, ", ")
}

/// A signature for messages: `Ret name(params)`.
pub open spec fn signature(return_type: Seq<char>, name: Seq<char>, params: Seq<char>) -> Seq<char> {
    let ret = trimmed(return_type);
    if ret.len() == 0 {
        name + "("@ + trimmed(params) + ")"@
    } else {
        ret + " "@ + name + "("@ + trimmed(params) + ")"@
    }
}

/// A signature for messages: `Ret name(params)`.
pub fn hal_sig(return_type: &str, name: &str, params: &str) -> (r: String)
    ensures
        r@ == signature(return_type@, name@, params@),
{
    let ret = trim(return_type);
    let mut s = if ret.unicode_len() == 0 {
        name.to_owned()
    } else {
        let mut s = ret.to_owned();
        s.append(" ");
        s.append(name);
        s
    };
    s.append("(");
    s.append(trim(params));
    s.append(")");
    s
}

// ---------------------------------------------------------------------------
// Coverage of one interface
// ---------------------------------------------------------------------------

/// How far a platform implements one interface.
#[derive(Debug, PartialEq, Eq)]
pub struct HalInterfaceCoverage {
    /// Every contract method is there with a matching signature.
    pub implemented: bool,
    /// Some file is attributed to the interface.
    pub has_impl: bool,
    /// A file for the interface is a pending stub.
    pub is_stub: bool,
    /// Contract methods that are not defined.
    pub missing: Vec<String>,
    /// The missing methods in full.
    pub missing_sigs: Vec<HalContractMethod>,
    /// Contract methods that are defined with another signature, as text.
    pub drifted: Vec<String>,
}

/// What a [`HalInterfaceCoverage`] holds.
#[verifier::ext_equal]
pub struct HalInterfaceCoverageView {
    pub implemented: bool,
    pub has_impl: bool,
    pub is_stub: bool,
    pub missing: Seq<Seq<char>>,
    pub missing_sigs: Seq<HalContractMethodView>,
    pub drifted: Seq<Seq<char>>,
}

impl DeepView for HalInterfaceCoverage {
    type V = HalInterfaceCoverageView;

    open spec fn deep_view(&self) -> HalInterfaceCoverageView {
        HalInterfaceCoverageView {
            implemented: self.implemented,
            has_impl: self.has_impl,
            is_stub: self.is_stub,
            missing: self.missing.deep_view(),
            missing_sigs: self.missing_sigs.deep_view(),
            drifted: self.drifted.deep_view(),
        }
    }
}

impl Clone for HalInterfaceCoverage {
    fn clone(&self) -> (r: Self)
        ensures
            r.deep_view() == self.deep_view(),
    {
        HalInterfaceCoverage {
            implemented: self.implemented,
            has_impl: self.has_impl,
            is_stub: self.is_stub,
            missing: copy_texts(&self.missing),
            missing_sigs: copy_hal_contract_methods(&self.missing_sigs),
            drifted: copy_texts(&self.drifted),
        }
    }
}

impl Default for HalInterfaceCoverage {
    fn default() -> (r: Self)
        ensures
            r.deep_view() == (HalInterfaceCoverageView {
                implemented: false,
                has_impl: false,
                is_stub: false,
                missing: Seq::empty(),
                missing_sigs: Seq::empty(),
                drifted: Seq::empty(),
            }),
    {
        HalInterfaceCoverage {
            implemented: false,
            has_impl: false,
            is_stub: false,
            missing: Vec::new(),
            missing_sigs: Vec::new(),
            drifted: Vec::new(),
        }
    }
}

/// The first implementation method of the name from `k` on.
pub open spec fn impl_from(methods: Seq<HalImplMethodView>, name: Seq<char>, k: int) -> Option<
    HalImplMethodView,
>
    decreases methods.len() - k,
{
    if k < 0 || k >= methods.len() {
        None
    } else if methods[k].name == name {
        Some(methods[k])
    } else {
        impl_from(methods, name, k + 1)
    }
}

/// The return types are both stated and differ once white space is collapsed.
pub open spec fn returns_differ(a: Seq<char>, b: Seq<char>) -> bool {
    trimmed(a).len() > 0 && trimmed(b).len() > 0 && joined(word_seq(a), " "@) != joined(
        word_seq(b),
        " "@,
    )
}

/// The implementation's signature departs from the contract's.
pub open spec fn drifts(c: HalContractMethodView, m: HalImplMethodView) -> bool {
    normalized(c.params) != normalized(m.params) || returns_differ(c.return_type, m.return_type)
}

/// How a drifted method is reported.
pub open spec fn drift_text(c: HalContractMethodView, m: HalImplMethodView) -> Seq<char> {
    c.name
            + ": contract `"@
            + signature(c.return_type, c.name, c.params)
            + "` → impl `"@
            + signature(m.return_type, m.name, m.params)
            + "`"@
}

/// What the first `n` contract methods lack: missing methods, and reports of
/// drifted ones.
pub open spec fn gaps_upto(
    contract: Seq<HalContractMethodView>,
    methods: Seq<HalImplMethodView>,
    n: int,
) -> (Seq<HalContractMethodView>, Seq<Seq<char>>)
    decreases n,
{
    if n <= 0 {
        (Seq::empty(), Seq::empty())
    } else {
        let (missing, drifted) = gaps_upto(contract, methods, n - 1);
        let c = contract[n - 1];
        match impl_from(methods, c.name, 0) {
            None => (missing.push(c), drifted),
            Some(m) => if drifts(c, m) {
                (missing, drifted.push(drift_text(c, m)))
            } else {
                (missing, drifted)
            },
        }
    }
}

/// The coverage of a contract by the methods that its files define, where there
/// is such a file or not. A pending stub implements nothing: all its methods are
/// missing.
pub open spec fn coverage_of(
    contract: Seq<HalContractMethodView>,
    methods: Seq<HalImplMethodView>,
    attributed: bool,
    stubbed: bool,
) -> HalInterfaceCoverageView {
    let (missing, drifted) = if stubbed {
        (contract, Seq::empty())
    } else {
        gaps_upto(contract, methods, contract.len() as int)
    };
    HalInterfaceCoverageView {
        implemented: !stubbed && missing.len() == 0 && drifted.len() == 0,
        has_impl: attributed,
        is_stub: stubbed,
        missing: method_names(missing),
        missing_sigs: missing,
        drifted,
    }
}

fn find_impl(methods: &Vec<HalImplMethod>, name: &str) -> (r: Option<usize>)
    ensures
        (match r {
            Some(k) => k < methods.len() && impl_from(methods.deep_view(), name@, 0) == Some(
                methods.deep_view()[k as int],
            ),
            None => impl_from(methods.deep_view(), name@, 0) is None,
        }),
{
    let mut k: usize = 0;
    while k < methods.len()
        invariant
            k <= methods@.len(),
            impl_from(methods.deep_view(), name@, 0) == impl_from(
                methods.deep_view(),
                name@,
                k as int,
            ),
        decreases methods@.len() - k,
    {
        if same(methods[k].name.as_str(), name) {
            return Some(k);
        }
        k = k + 1;
    }
    None
}

fn is_drifted(c: &HalContractMethod, m: &HalImplMethod) -> (r: bool)
    ensures
        r == drifts(c.deep_view(), m.deep_view()),
{
    let a = normalize_params(c.params.as_str());
    let b = normalize_params(m.params.as_str());
    let ret = trim(c.return_type.as_str()).unicode_len() > 0 && trim(
        m.return_type.as_str(),
    ).unicode_len() > 0 && !same(
        join(&words(c.return_type.as_str()), " ").as_str(),
        join(&words(m.return_type.as_str()), " ").as_str(),
    );
    !same(a.as_str(), b.as_str()) || ret
}

fn report_drift(c: &HalContractMethod, m: &HalImplMethod) -> (r: String)
    ensures
        r@ == drift_text(c.deep_view(), m.deep_view()),
{
    let a = hal_sig(c.return_type.as_str(), c.name.as_str(), c.params.as_str());
    let b = hal_sig(m.return_type.as_str(), m.name.as_str(), m.params.as_str());
    let mut s = c.name.clone();
    s.append(": contract `");
    s.append(a.as_str());
    s.append("` → impl `");
    s.append(b.as_str());
    s.append("`");
    s
}

/// The coverage of a contract by the methods that its files define, where there
/// is such a file or not.
pub fn coverage_from(
    contract: &Vec<HalContractMethod>,
    methods: &Vec<HalImplMethod>,
    attributed: bool,
    stubbed: bool,
) -> (r: HalInterfaceCoverage)
    ensures
        r.deep_view() == coverage_of(contract.deep_view(), methods.deep_view(), attributed, stubbed),
{
    let ghost want = contract.deep_view();
    let ghost have = methods.deep_view();
    let mut missing_sigs: Vec<HalContractMethod> = Vec::new();
    let mut drifted: Vec<String> = Vec::new();
    assert(missing_sigs.deep_view() =~= Seq::empty());
    assert(drifted.deep_view() =~= Seq::empty());
    if stubbed {
        missing_sigs = copy_hal_contract_methods(contract);
    } else {
        let mut i: usize = 0;
        while i < contract.len()
            invariant
                i <= contract@.len(),
                want == contract.deep_view(),
                have == methods.deep_view(),
                missing_sigs.deep_view() == gaps_upto(want, have, i as int).0,
                drifted.deep_view() == gaps_upto(want, have, i as int).1,
            decreases contract@.len() - i,
        {
            match find_impl(methods, contract[i].name.as_str()) {
                None => {
                    add_item(&mut missing_sigs, contract[i].clone());
                },
                Some(k) => {
                    if is_drifted(&contract[i], &methods[k]) {
                        add_item(&mut drifted, report_drift(&contract[i], &methods[k]));
                    }
                },
            }
            i = i + 1;
        }
    }
    let missing = names_of_methods(&missing_sigs);
    HalInterfaceCoverage {
        implemented: !stubbed && missing_sigs.len() == 0 && drifted.len() == 0,
        has_impl: attributed,
        is_stub: stubbed,
        missing,
        missing_sigs,
        drifted,
    }
}

/// A file name up to its first dot.
pub open spec fn first_part(name: Seq<char>) -> Seq<char> {
    pieces(name, '.')[0]
}

/// What the first `n` files of a directory give for an interface: whether one
/// is a pending stub, and the methods that they define.
pub open spec fn found_upto(
    t: ProjectTreeView,
    dir: Seq<char>,
    names: Seq<Seq<char>>,
    stem: Seq<char>,
    n: int,
) -> (bool, Seq<HalImplMethodView>)
    decreases n,
{
    if n <= 0 {
        (false, Seq::empty())
    } else {
        let (stubbed, methods) = found_upto(t, dir, names, stem, n - 1);
        if !implements_stem(first_part(names[n - 1]), stem) {
            (stubbed, methods)
        } else {
            match content_at(t, path_join(dir, names[n - 1])) {
                Some(content) => (stubbed || is_stub_text(content), methods + definitions(content)),
                None => (stubbed, methods),
            }
        }
    }
}

/// What the files of a directory give for an interface.
pub open spec fn found_in(t: ProjectTreeView, dir: Seq<char>, stem: Seq<char>) -> (
    bool,
    Seq<HalImplMethodView>,
) {
    if dir_at(t, dir) {
        let names = names_in(t, dir);
        found_upto(t, dir, names, stem, names.len() as int)
    } else {
        (false, Seq::empty())
    }
}

/// The file of that name is attributed to the interface.
pub open spec fn is_attributed(
    t: ProjectTreeView,
    dir: Seq<char>,
    name: Seq<char>,
    stem: Seq<char>,
) -> bool {
    implements_stem(first_part(name), stem) && file_at(t, path_join(dir, name))
}

/// A directory holds a file that is attributed to the interface.
pub open spec fn has_attributed(t: ProjectTreeView, dir: Seq<char>, stem: Seq<char>) -> bool {
    dir_at(t, dir) && exists|i: int|
        0 <= i < names_in(t, dir).len() && is_attributed(t, dir, #[trigger] names_in(t, dir)[i], stem)
}

/// The coverage of a contract by the files of an implementation directory.
pub open spec fn interface_coverage(
    contract: Seq<HalContractMethodView>,
    stem: Seq<char>,
    t: ProjectTreeView,
    dir: Seq<char>,
) -> HalInterfaceCoverageView {
    let (stubbed, methods) = found_in(t, dir, stem);
    coverage_of(contract, methods, has_attributed(t, dir, stem), stubbed)
}

/// Compares one interface's methods with what the files attributed to it in a
/// platform's implementation directory define.
pub fn hal_interface_coverage(
    contract_methods: &Vec<HalContractMethod>,
    stem: &str,
    tree: &ProjectTree,
    impl_dir: &str,
) -> (r: HalInterfaceCoverage)
    ensures
        r.deep_view() == interface_coverage(
            contract_methods.deep_view(),
            stem@,
            tree.deep_view(),
            impl_dir@,
        ),
{
    let ghost t = tree.deep_view();
    let mut methods: Vec<HalImplMethod> = Vec::new();
    assert(methods.deep_view() =~= Seq::empty());
    let mut stubbed = false;
    let mut attributed = false;
    if tree.is_dir(impl_dir) {
        let names = tree.list(impl_dir);
        let ghost all = names.deep_view();
        let mut i: usize = 0;
        while i < names.len()
            invariant
                i <= names@.len(),
                t == tree.deep_view(),
                all == names.deep_view(),
                attributed == exists|j: int|
                    0 <= j < i && is_attributed(t, impl_dir@, #[trigger] all[j], stem@),
                stubbed == found_upto(t, impl_dir@, names.deep_view(), stem@, i as int).0,
                methods.deep_view() == found_upto(
                    t,
                    impl_dir@,
                    names.deep_view(),
                    stem@,
                    i as int,
                ).1,
            decreases names@.len() - i,
        {
            let name = names[i].as_str();
            let parts = split(name, '.');
            assert(parts.deep_view()[0] == parts[0]@);
            let ghost known = attributed;
            if file_implements_stem(parts[0].as_str(), stem) {
                attributed = attributed || tree.is_file(join_path(impl_dir, name).as_str());
                match tree.read(join_path(impl_dir, name).as_str()) {
                    Some(content) => {
                        stubbed = stubbed || is_hal_stub(content.as_str());
                        let mut more = extract_cpp_method_definitions_ts(content.as_str());
                        let ghost a = methods.deep_view();
                        let ghost b = more.deep_view();
                        methods.append(&mut more);
                        assert(methods.deep_view() =~= a + b);
                    },
                    None => {},
                }
            }
            proof {
                assert(all[i as int] == names[i as int]@);
                if is_attributed(t, impl_dir@, all[i as int], stem@) {
                    assert(attributed);
                } else {
                    assert(attributed == known);
                }
            }
            i = i + 1;
        }
        assert(attributed == has_attributed(t, impl_dir@, stem@));
    }
    coverage_from(contract_methods, &methods, attributed, stubbed)
}

// ---------------------------------------------------------------------------
// Coverage of a project
// ---------------------------------------------------------------------------

/// The contracts that the first `n` headers of a directory add to the table.
pub open spec fn contracts_upto(
    t: ProjectTreeView,
    dir: Seq<char>,
    names: Seq<Seq<char>>,
    table: Seq<(Seq<char>, Seq<HalContractMethodView>)>,
    n: int,
) -> Seq<(Seq<char>, Seq<HalContractMethodView>)>
    decreases n,
{
    if n <= 0 {
        table
    } else {
        let done = contracts_upto(t, dir, names, table, n - 1);
        let name = names[n - 1];
        if !has_extension(name, "hpp"@) && !has_extension(name, "h"@) {
            done
        } else {
            match content_at(t, path_join(dir, name)) {
                None => done,
                Some(content) => {
                    let classes = contract_classes(content);
                    let methods = flat_methods(classes, classes.len() as int);
                    if methods.len() == 0 {
                        done
                    } else {
                        with_new(done, stem_of(name), methods)
                    }
                },
            }
        }
    }
}

/// The contracts that a directory's headers add to the table.
pub open spec fn contracts_with(
    t: ProjectTreeView,
    dir: Seq<char>,
    table: Seq<(Seq<char>, Seq<HalContractMethodView>)>,
) -> Seq<(Seq<char>, Seq<HalContractMethodView>)> {
    if dir_at(t, dir) {
        contracts_upto(t, dir, names_in(t, dir), table, names_in(t, dir).len() as int)
    } else {
        table
    }
}

/// The contracts of a project: interface stem and methods.
pub open spec fn project_contracts(t: ProjectTreeView) -> Seq<
    (Seq<char>, Seq<HalContractMethodView>),
> {
    contracts_with(t, "toolkit/src/hal/api"@, contracts_with(t, "hal/api"@, Seq::empty()))
}

fn add_contracts(
    tree: &ProjectTree,
    dir: &str,
    table: &mut Vec<(String, Vec<HalContractMethod>)>,
)
    ensures
        final(table).deep_view() == contracts_with(tree.deep_view(), dir@, old(table).deep_view()),
{
    if !tree.is_dir(dir) {
        return;
    }
    let ghost t = tree.deep_view();
    let ghost start = table.deep_view();
    let names = tree.list(dir);
    let mut i: usize = 0;
    while i < names.len()
        invariant
            i <= names@.len(),
            t == tree.deep_view(),
            table.deep_view() == contracts_upto(t, dir@, names.deep_view(), start, i as int),
        decreases names@.len() - i,
    {
        let name = names[i].as_str();
        if with_extension(name, "hpp") || with_extension(name, "h") {
            match tree.read(join_path(dir, name).as_str()) {
                None => {},
                Some(content) => {
                    let classes = extract_contract_methods_cpp(content.as_str());
                    let methods = flatten_methods(&classes);
                    if methods.len() > 0 {
                        put_new(table, file_stem(name).to_owned(), methods);
                    }
                },
            }
        }
        i = i + 1;
    }
}

/// The contracts of a project: interface stem and methods.
pub fn contracts_of_project(tree: &ProjectTree) -> (r: Vec<(String, Vec<HalContractMethod>)>)
    ensures
        r.deep_view() == project_contracts(tree.deep_view()),
{
    let mut table: Vec<(String, Vec<HalContractMethod>)> = Vec::new();
    assert(table.deep_view() =~= Seq::empty());
    add_contracts(tree, "hal/api", &mut table);
    add_contracts(tree, "toolkit/src/hal/api", &mut table);
    table
}

/// A directory at the root that is no platform.
pub open spec fn is_skipped(name: Seq<char>) -> bool {
    ||| name == "toolkit"@
    ||| name == "hal"@
    ||| name == "build"@
    ||| name == "build-native"@
    ||| name == "subprojects"@
    ||| name == ".git"@
    ||| begins(name, "."@)
}

/// Whether a directory at the root is no platform.
pub fn skips(name: &str) -> (r: bool)
    ensures
        r == is_skipped(name@),
{
    same(name, "toolkit") || same(name, "hal") || same(name, "build") || same(name, "build-native")
        || same(name, "subprojects") || same(name, ".git") || starts_with(name, ".")
}

/// The platforms that the first `n` entries below `hal/implementations` add.
pub open spec fn canonical_upto(
    t: ProjectTreeView,
    names: Seq<Seq<char>>,
    n: int,
) -> Seq<(Seq<char>, Seq<char>)>
    decreases n,
{
    if n <= 0 {
        Seq::empty()
    } else {
        let done = canonical_upto(t, names, n - 1);
        let path = path_join("hal/implementations"@, names[n - 1]);
        if dir_at(t, path) && !begins(names[n - 1], "."@) {
            with_new(done, names[n - 1], path)
        } else {
            done
        }
    }
}

/// The platforms that the first `n` entries of the root add in the layout
/// `<platform>/hal`.
pub open spec fn legacy_upto(
    t: ProjectTreeView,
    names: Seq<Seq<char>>,
    table: Seq<(Seq<char>, Seq<char>)>,
    n: int,
) -> Seq<(Seq<char>, Seq<char>)>
    decreases n,
{
    if n <= 0 {
        table
    } else {
        let done = legacy_upto(t, names, table, n - 1);
        let path = path_join(names[n - 1], "hal"@);
        if dir_at(t, names[n - 1]) && !is_skipped(names[n - 1]) && dir_at(t, path) {
            with_new(done, names[n - 1], path)
        } else {
            done
        }
    }
}

/// The platforms of a project, each with its implementation directory.
pub open spec fn platform_dirs(t: ProjectTreeView) -> Seq<(Seq<char>, Seq<char>)> {
    let canonical = names_in(t, "hal/implementations"@);
    let first = if dir_at(t, "hal/implementations"@) {
        canonical_upto(t, canonical, canonical.len() as int)
    } else {
        Seq::empty()
    };
    let top = names_in(t, Seq::empty());
    legacy_upto(t, top, first, top.len() as int)
}

/// The platforms of a project, each with its implementation directory.
pub fn platforms_of_project(tree: &ProjectTree) -> (r: Vec<(String, String)>)
    ensures
        r.deep_view() == platform_dirs(tree.deep_view()),
{
    let ghost t = tree.deep_view();
    let mut table: Vec<(String, String)> = Vec::new();
    assert(table.deep_view() =~= Seq::empty());
    if tree.is_dir("hal/implementations") {
        let names = tree.list("hal/implementations");
        let mut i: usize = 0;
        while i < names.len()
            invariant
                i <= names@.len(),
                t == tree.deep_view(),
                table.deep_view() == canonical_upto(t, names.deep_view(), i as int),
            decreases names@.len() - i,
        {
            let path = join_path("hal/implementations", names[i].as_str());
            if tree.is_dir(path.as_str()) && !starts_with(names[i].as_str(), ".") {
                put_new(&mut table, names[i].clone(), path);
            }
            i = i + 1;
        }
    }
    let ghost first = table.deep_view();
    let empty = String::new();
    assert(empty@ =~= Seq::empty());
    let top = tree.list(empty.as_str());
    let mut i: usize = 0;
    while i < top.len()
        invariant
            i <= top@.len(),
            t == tree.deep_view(),
            table.deep_view() == legacy_upto(t, top.deep_view(), first, i as int),
        decreases top@.len() - i,
    {
        let name = top[i].as_str();
        let path = join_path(name, "hal");
        if tree.is_dir(name) && !skips(name) && tree.is_dir(path.as_str()) {
            put_new(&mut table, name.to_owned(), path);
        }
        i = i + 1;
    }
    table
}

/// The coverage of the first `n` contracts by one implementation directory.
pub open spec fn dir_coverage(
    t: ProjectTreeView,
    contracts: Seq<(Seq<char>, Seq<HalContractMethodView>)>,
    dir: Seq<char>,
    n: int,
) -> Seq<(Seq<char>, HalInterfaceCoverageView)>
    decreases n,
{
    if n <= 0 {
        Seq::empty()
    } else {
        with_value(
            dir_coverage(t, contracts, dir, n - 1),
            contracts[n - 1].0,
            interface_coverage(contracts[n - 1].1, contracts[n - 1].0, t, dir),
        )
    }
}

/// The coverage of the contracts by the first `n` platforms.
pub open spec fn platforms_coverage(
    t: ProjectTreeView,
    contracts: Seq<(Seq<char>, Seq<HalContractMethodView>)>,
    platforms: Seq<(Seq<char>, Seq<char>)>,
    n: int,
) -> Seq<(Seq<char>, Seq<(Seq<char>, HalInterfaceCoverageView)>)>
    decreases n,
{
    if n <= 0 {
        Seq::empty()
    } else {
        with_value(
            platforms_coverage(t, contracts, platforms, n - 1),
            platforms[n - 1].0,
            dir_coverage(t, contracts, platforms[n - 1].1, contracts.len() as int),
        )
    }
}

/// The coverage of a project: for each platform and interface; empty where
/// there is no contract.
pub open spec fn coverage_map(t: ProjectTreeView) -> Seq<
    (Seq<char>, Seq<(Seq<char>, HalInterfaceCoverageView)>),
> {
    let contracts = project_contracts(t);
    let platforms = platform_dirs(t);
    if contracts.len() == 0 {
        Seq::empty()
    } else {
        platforms_coverage(t, contracts, platforms, platforms.len() as int)
    }
}

fn cover_dir(
    tree: &ProjectTree,
    contracts: &Vec<(String, Vec<HalContractMethod>)>,
    dir: &str,
) -> (r: Vec<(String, HalInterfaceCoverage)>)
    ensures
        r.deep_view() == dir_coverage(
            tree.deep_view(),
            contracts.deep_view(),
            dir@,
            contracts@.len() as int,
        ),
{
    let mut out: Vec<(String, HalInterfaceCoverage)> = Vec::new();
    assert(out.deep_view() =~= Seq::empty());
    let mut i: usize = 0;
    while i < contracts.len()
        invariant
            i <= contracts@.len(),
            out.deep_view() == dir_coverage(
                tree.deep_view(),
                contracts.deep_view(),
                dir@,
                i as int,
            ),
        decreases contracts@.len() - i,
    {
        let c = hal_interface_coverage(&contracts[i].1, contracts[i].0.as_str(), tree, dir);
        put(&mut out, contracts[i].0.clone(), c);
        i = i + 1;
    }
    out
}

/// The coverage of a project: for each platform, in dictionary order, and each
/// interface, in dictionary order. Contracts come from `hal/api` and
/// `toolkit/src/hal/api`, implementations from `hal/implementations/<platform>`
/// and `<platform>/hal`.
pub fn hal_platform_coverage_map(tree: &ProjectTree) -> (r: Vec<
    (String, Vec<(String, HalInterfaceCoverage)>),
>)
    ensures
        r.deep_view() == coverage_map(tree.deep_view()),
{
    let contracts = contracts_of_project(tree);
    let mut out: Vec<(String, Vec<(String, HalInterfaceCoverage)>)> = Vec::new();
    assert(out.deep_view() =~= Seq::empty());
    if contracts.len() == 0 {
        return out;
    }
    let platforms = platforms_of_project(tree);
    let mut i: usize = 0;
    while i < platforms.len()
        invariant
            i <= platforms@.len(),
            out.deep_view() == platforms_coverage(
                tree.deep_view(),
                contracts.deep_view(),
                platforms.deep_view(),
                i as int,
            ),
        decreases platforms@.len() - i,
    {
        let c = cover_dir(tree, &contracts, platforms[i].1.as_str());
        put(&mut out, platforms[i].0.clone(), c);
        i = i + 1;
    }
    out
}

/// A table of lists with one more text at the end of the key's list.
pub open spec fn with_listed(table: Seq<(Seq<char>, Seq<Seq<char>>)>, key: Seq<char>, item: Seq<char>) -> Seq<
    (Seq<char>, Seq<Seq<char>>),
> {
    match value_at(table, key) {
        Some(list) => with_value(table, key, list.push(item)),
        None => with_value(table, key, seq![item]),
    }
}

/// What the first `n` interfaces of a platform add to the two tables.
pub open spec fn flat_platform(
    tables: (Seq<(Seq<char>, Seq<Seq<char>>)>, Seq<(Seq<char>, Seq<Seq<char>>)>),
    plat: Seq<char>,
    ifaces: Seq<(Seq<char>, HalInterfaceCoverageView)>,
    n: int,
) -> (Seq<(Seq<char>, Seq<Seq<char>>)>, Seq<(Seq<char>, Seq<Seq<char>>)>)
    decreases n,
{
    if n <= 0 {
        tables
    } else {
        let (a, b) = flat_platform(tables, plat, ifaces, n - 1);
        if ifaces[n - 1].1.implemented {
            (a, b)
        } else {
            (with_listed(a, plat, ifaces[n - 1].0), with_listed(b, ifaces[n - 1].0, plat))
        }
    }
}

/// The two tables for the first `n` platforms: incomplete interfaces by
/// platform, platforms by incomplete interface.
pub open spec fn flat_coverage(
    coverage: Seq<(Seq<char>, Seq<(Seq<char>, HalInterfaceCoverageView)>)>,
    n: int,
) -> (Seq<(Seq<char>, Seq<Seq<char>>)>, Seq<(Seq<char>, Seq<Seq<char>>)>)
    decreases n,
{
    if n <= 0 {
        (Seq::empty(), Seq::empty())
    } else {
        flat_platform(
            flat_coverage(coverage, n - 1),
            coverage[n - 1].0,
            coverage[n - 1].1,
            coverage[n - 1].1.len() as int,
        )
    }
}

fn add_listed(table: &mut Vec<(String, Vec<String>)>, key: &str, item: &str)
    ensures
        final(table).deep_view() == with_listed(old(table).deep_view(), key@, item@),
{
    let mut list: Vec<String> = match find_key(table, key) {
        Some(k) => copy_texts(&table[k].1),
        None => Vec::new(),
    };
    assert(list.deep_view() =~= match value_at(table.deep_view(), key@) {
        Some(l) => l,
        None => Seq::empty(),
    });
    add_item(&mut list, item.to_owned());
    assert(Seq::<Seq<char>>::empty().push(item@) =~= seq![item@]);
    put(table, key.to_owned(), list);
}

/// The coverage of a project as two tables: the incomplete interfaces of each
/// platform, and the platforms on which each incomplete interface is missing.
pub fn flatten_hal_coverage(
    coverage: &Vec<(String, Vec<(String, HalInterfaceCoverage)>)>,
) -> (r: (Vec<(String, Vec<String>)>, Vec<(String, Vec<String>)>))
    ensures
        (r.0.deep_view(), r.1.deep_view()) == flat_coverage(
            coverage.deep_view(),
            coverage@.len() as int,
        ),
{
    let ghost all = coverage.deep_view();
    let mut by_platform: Vec<(String, Vec<String>)> = Vec::new();
    let mut by_interface: Vec<(String, Vec<String>)> = Vec::new();
    assert(by_platform.deep_view() =~= Seq::empty());
    assert(by_interface.deep_view() =~= Seq::empty());
    let mut i: usize = 0;
    while i < coverage.len()
        invariant
            i <= coverage@.len(),
            all == coverage.deep_view(),
            (by_platform.deep_view(), by_interface.deep_view()) == flat_coverage(all, i as int),
        decreases coverage@.len() - i,
    {
        let plat = coverage[i].0.as_str();
        let ifaces = &coverage[i].1;
        let ghost start = flat_coverage(all, i as int);
        let ghost list = ifaces.deep_view();
        assert(all[i as int] == (plat@, list));
        let mut k: usize = 0;
        while k < ifaces.len()
            invariant
                k <= ifaces@.len(),
                list == ifaces.deep_view(),
                (by_platform.deep_view(), by_interface.deep_view()) == flat_platform(
                    start,
                    plat@,
                    list,
                    k as int,
                ),
            decreases ifaces@.len() - k,
        {
            if !ifaces[k].1.implemented {
                add_listed(&mut by_platform, plat, ifaces[k].0.as_str());
                add_listed(&mut by_interface, ifaces[k].0.as_str(), plat);
            }
            k = k + 1;
        }
        i = i + 1;
    }
    (by_platform, by_interface)
}

} // verus!
