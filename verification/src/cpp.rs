//! C++ headers and sources read through their syntax trees: contract methods,
//! base classes, method definitions and structural errors.

use vstd::prelude::*;

use crate::syntax::{
    child_in_field, children_of, fault_nodes, faults_from, field_child, in_range, indices,
    named_children, node_text, outermost, parse_cpp, text_of_node, tops, SyntaxNode, SyntaxNodeView,
};
use crate::syntax::cpp_syntax;
use crate::text::{
    add_item, after, after_last, before, begins, behind_last, chars_of, char_index, contains, ends,
    ends_with, feeds, find, find_from, find_last, has_text, head_of, index_at, join, joined, list_has, lines, line_seq, replace,
    replaced, rfind, same, span, span_of, starts_with, tail_of, text_of_all, trim, trim_start, trimmed, trimmed_start, width,
    width_of, word_seq, words,
};

verus! {

/// One public pure-virtual method of a contract.
#[derive(Debug, PartialEq, Eq)]
pub struct HalContractMethod {
    pub name: String,
    pub return_type: String,
    pub params: String,
}

/// What a [`HalContractMethod`] holds.
#[verifier::ext_equal]
pub struct HalContractMethodView {
    pub name: Seq<char>,
    pub return_type: Seq<char>,
    pub params: Seq<char>,
}

impl DeepView for HalContractMethod {
    type V = HalContractMethodView;

    open spec fn deep_view(&self) -> HalContractMethodView {
        HalContractMethodView {
            name: self.name@,
            return_type: self.return_type@,
            params: self.params@,
        }
    }
}

impl Clone for HalContractMethod {
    fn clone(&self) -> (r: Self)
        ensures
            r.deep_view() == self.deep_view(),
    {
        HalContractMethod {
            name: self.name.clone(),
            return_type: self.return_type.clone(),
            params: self.params.clone(),
        }
    }
}

/// A copy of a list of [`HalContractMethod`] values.
pub fn copy_hal_contract_methods(v: &Vec<HalContractMethod>) -> (r: Vec<HalContractMethod>)
    ensures
        r.deep_view() == v.deep_view(),
{
    let mut out: Vec<HalContractMethod> = Vec::new();
    let mut i: usize = 0;
    while i < v.len()
        invariant
            i <= v@.len(),
            out.deep_view() == v.deep_view().take(i as int),
        decreases v@.len() - i,
    {
        add_item(&mut out, v[i].clone());
        assert(v.deep_view().take(i + 1) =~= v.deep_view().take(i as int).push(v[i as int].deep_view()));
        i = i + 1;
    }
    assert(v.deep_view().take(v@.len() as int) =~= v.deep_view());
    out
}

/// One method that an implementation file defines.
#[derive(Debug, PartialEq, Eq)]
pub struct HalImplMethod {
    pub name: String,
    pub return_type: String,
    pub params: String,
}

/// What a [`HalImplMethod`] holds.
#[verifier::ext_equal]
pub struct HalImplMethodView {
    pub name: Seq<char>,
    pub return_type: Seq<char>,
    pub params: Seq<char>,
}

impl DeepView for HalImplMethod {
    type V = HalImplMethodView;

    open spec fn deep_view(&self) -> HalImplMethodView {
        HalImplMethodView {
            name: self.name@,
            return_type: self.return_type@,
            params: self.params@,
        }
    }
}

impl Clone for HalImplMethod {
    fn clone(&self) -> (r: Self)
        ensures
            r.deep_view() == self.deep_view(),
    {
        HalImplMethod {
            name: self.name.clone(),
            return_type: self.return_type.clone(),
            params: self.params.clone(),
        }
    }
}

// ---------------------------------------------------------------------------
// Declarators
// ---------------------------------------------------------------------------

/// The first node of the list that has the kind, from position `k` on.
pub open spec fn first_of_kind(
    nodes: Seq<SyntaxNodeView>,
    list: Seq<int>,
    kind: Seq<char>,
    k: int,
) -> Option<int>
    decreases list.len() - k,
{
    if k < 0 || k >= list.len() {
        None
    } else if nodes[list[k]].kind == kind {
        Some(list[k])
    } else {
        first_of_kind(nodes, list, kind, k + 1)
    }
}

fn first_child_of_kind(nodes: &Vec<SyntaxNode>, i: usize, kind: &str) -> (r: Option<usize>)
    requires
        i < nodes.len(),
    ensures
        (match r {
            Some(k) => first_of_kind(
                nodes.deep_view(),
                named_children(nodes.deep_view(), i as int),
                kind@,
                0,
            ) == Some(k as int) && k < nodes.len(),
            None => first_of_kind(
                nodes.deep_view(),
                named_children(nodes.deep_view(), i as int),
                kind@,
                0,
            ) is None,
        }),
{
    let kids = children_of(nodes, i);
    let ghost list = indices(kids@);
    let mut k: usize = 0;
    while k < kids.len()
        invariant
            k <= kids@.len(),
            list == indices(kids@),
            list == named_children(nodes.deep_view(), i as int),
            in_range(kids@, nodes@.len() as int),
            first_of_kind(nodes.deep_view(), list, kind@, 0) == first_of_kind(
                nodes.deep_view(),
                list,
                kind@,
                k as int,
            ),
        decreases kids@.len() - k,
    {
        let c: usize = kids[k];
        assert(list[k as int] == c as int);
        if same(nodes[c].kind.as_str(), kind) {
            return Some(c);
        }
        k = k + 1;
    }
    None
}

/// The name that a function declarator declares: its declarator's text behind
/// the last `::`.
pub open spec fn declared_name(source: Seq<char>, nodes: Seq<SyntaxNodeView>, fd: int) -> Seq<char> {
    match field_child(nodes, fd, "declarator"@) {
        Some(d) => trimmed(after_last(trimmed(node_text(source, nodes, d)), "::"@)),
        None => Seq::empty(),
    }
}

/// The text of a parameter list without its parentheses.
pub open spec fn without_parens(t: Seq<char>) -> Seq<char> {
    if begins(t, "("@) && ends(t, ")"@) && t.len() >= 2 {
        trimmed(t.subrange(1, t.len() - 1))
    } else {
        t
    }
}

/// The node that holds the parameters of a function declarator.
pub open spec fn parameter_node(nodes: Seq<SyntaxNodeView>, fd: int) -> Option<int> {
    match field_child(nodes, fd, "parameters"@) {
        Some(p) => Some(p),
        None => first_of_kind(nodes, named_children(nodes, fd), "parameter_list"@, 0),
    }
}

/// The parameters that a function declarator declares.
pub open spec fn declared_params(source: Seq<char>, nodes: Seq<SyntaxNodeView>, fd: int) -> Seq<
    char,
> {
    match parameter_node(nodes, fd) {
        Some(p) => without_parens(trimmed(node_text(source, nodes, p))),
        None => Seq::empty(),
    }
}

/// The name and the parameters that a function declarator declares.
pub fn function_declarator_name_params(
    source: &Vec<char>,
    nodes: &Vec<SyntaxNode>,
    fd: usize,
) -> (r: (String, String))
    requires
        fd < nodes.len(),
    ensures
        r.0@ == declared_name(source@, nodes.deep_view(), fd as int),
        r.1@ == declared_params(source@, nodes.deep_view(), fd as int),
{
    let name = match child_in_field(nodes, fd, "declarator") {
        Some(d) => {
            let t = text_of_node(source, nodes, d);
            trim(behind_last(trim(t.as_str()), "::")).to_owned()
        },
        None => String::new(),
    };
    let holder: Option<usize> = match child_in_field(nodes, fd, "parameters") {
        Some(p) => Some(p),
        None => first_child_of_kind(nodes, fd, "parameter_list"),
    };
    let params = match holder {
        Some(p) => {
            let t = text_of_node(source, nodes, p);
            let t = trim(t.as_str());
            let n: usize = t.unicode_len();
            if starts_with(t, "(") && ends_with(t, ")") && n >= 2 {
                trim(t.substring_char(1, n - 1)).to_owned()
            } else {
                t.to_owned()
            }
        },
        None => String::new(),
    };
    (name, params)
}

// ---------------------------------------------------------------------------
// Contract methods
// ---------------------------------------------------------------------------

/// Words as one type, `&` and `*` next to what they follow.
pub open spec fn as_type(words: Seq<Seq<char>>) -> Seq<char> {
    replaced(replaced(joined(words, " "@), " &"@, "&"@), " *"@, "*"@)
}

/// Words as one type, `&` and `*` next to what they follow.
pub fn type_text(words: &Vec<String>) -> (r: String)
    ensures
        r@ == as_type(words.deep_view()),
{
    proof {
        reveal_strlit(" &");
        reveal_strlit(" *");
    }
    let text = join(words, " ");
    let text = replace(text.as_str(), " &", "&");
    replace(text.as_str(), " *", "*")
}

/// The kind of a declarator that a function declarator is, or stands below where
/// a pointer or a reference is returned.
pub open spec fn leads_to_function(kind: Seq<char>) -> bool {
    kind == "function_declarator"@ || kind == "pointer_declarator"@ || kind == "reference_declarator"@
}

/// The first node of the list from `k` on that is, or may hold, a function
/// declarator.
pub open spec fn declarator_from(nodes: Seq<SyntaxNodeView>, list: Seq<int>, k: int) -> Option<int>
    decreases list.len() - k,
{
    if k < 0 || k >= list.len() {
        None
    } else if leads_to_function(nodes[list[k]].kind) {
        Some(list[k])
    } else {
        declarator_from(nodes, list, k + 1)
    }
}

/// The function declarator of a declarator: itself, or the one below it.
pub open spec fn function_node(nodes: Seq<SyntaxNodeView>, d: int) -> Option<int>
    decreases nodes.len() - d,
{
    if d < 0 || d >= nodes.len() {
        None
    } else if nodes[d].kind == "function_declarator"@ {
        Some(d)
    } else {
        match declarator_from(nodes, named_children(nodes, d), 0) {
            Some(c) => if d < c < nodes.len() {
                function_node(nodes, c)
            } else {
                None
            },
            None => None,
        }
    }
}

fn may_declare_function(kind: &str) -> (r: bool)
    ensures
        r == leads_to_function(kind@),
{
    same(kind, "function_declarator") || same(kind, "pointer_declarator") || same(
        kind,
        "reference_declarator",
    )
}

fn first_declarator(nodes: &Vec<SyntaxNode>, i: usize) -> (r: Option<usize>)
    requires
        i < nodes.len(),
    ensures
        (match r {
            Some(k) => declarator_from(
                nodes.deep_view(),
                named_children(nodes.deep_view(), i as int),
                0,
            ) == Some(k as int) && k < nodes.len(),
            None => declarator_from(
                nodes.deep_view(),
                named_children(nodes.deep_view(), i as int),
                0,
            ) is None,
        }),
{
    let kids = children_of(nodes, i);
    let ghost list = indices(kids@);
    let mut k: usize = 0;
    while k < kids.len()
        invariant
            k <= kids@.len(),
            list == indices(kids@),
            list == named_children(nodes.deep_view(), i as int),
            in_range(kids@, nodes@.len() as int),
            declarator_from(nodes.deep_view(), list, 0) == declarator_from(
                nodes.deep_view(),
                list,
                k as int,
            ),
        decreases kids@.len() - k,
    {
        let c: usize = kids[k];
        assert(list[k as int] == c as int);
        if may_declare_function(nodes[c].kind.as_str()) {
            return Some(c);
        }
        k = k + 1;
    }
    None
}

fn find_function(nodes: &Vec<SyntaxNode>, d: usize) -> (r: Option<usize>)
    requires
        d < nodes.len(),
    ensures
        (match r {
            Some(f) => function_node(nodes.deep_view(), d as int) == Some(f as int) && f < nodes.len(),
            None => function_node(nodes.deep_view(), d as int) is None,
        }),
{
    let ghost all = nodes.deep_view();
    let mut at: usize = d;
    loop
        invariant
            at < nodes@.len(),
            all == nodes.deep_view(),
            function_node(all, d as int) == function_node(all, at as int),
        decreases nodes@.len() - at,
    {
        if same(nodes[at].kind.as_str(), "function_declarator") {
            return Some(at);
        }
        match first_declarator(nodes, at) {
            Some(c) => {
                if c <= at {
                    return None;
                }
                at = c;
            },
            None => {
                return None;
            },
        }
    }
}

/// The last function declarator that the first `n` children of a declaration
/// are or hold.
pub open spec fn function_among(nodes: Seq<SyntaxNodeView>, kids: Seq<int>, n: int) -> Option<int>
    decreases n,
{
    if n <= 0 {
        None
    } else {
        let done = function_among(nodes, kids, n - 1);
        let c = kids[n - 1];
        if leads_to_function(nodes[c].kind) && function_node(nodes, c) is Some {
            function_node(nodes, c)
        } else {
            done
        }
    }
}

/// The first child of a declaration, from `k` on, that belongs to its type.
pub open spec fn type_from(nodes: Seq<SyntaxNodeView>, kids: Seq<int>, k: int) -> Option<int>
    decreases kids.len() - k,
{
    if k < 0 || k >= kids.len() {
        None
    } else if nodes[kids[k]].field == "type"@ || nodes[kids[k]].kind == "type_qualifier"@ {
        Some(kids[k])
    } else {
        type_from(nodes, kids, k + 1)
    }
}

/// The type that the function declared at node `i` by the declarator `fd`
/// returns: all that stands from the declaration's type to the declarator, so
/// with its qualifiers, `*` and `&`.
pub open spec fn result_type(source: Seq<char>, nodes: Seq<SyntaxNodeView>, i: int, fd: int) -> Seq<
    char,
> {
    match type_from(nodes, named_children(nodes, i), 0) {
        Some(c) => as_type(
            word_seq(span(source, nodes[c].start as int, nodes[fd].start as int)),
        ),
        None => Seq::empty(),
    }
}

fn type_of_result(source: &Vec<char>, nodes: &Vec<SyntaxNode>, i: usize, fd: usize) -> (r: String)
    requires
        i < nodes.len(),
        fd < nodes.len(),
    ensures
        r@ == result_type(source@, nodes.deep_view(), i as int, fd as int),
{
    let kids = children_of(nodes, i);
    let ghost list = indices(kids@);
    let mut k: usize = 0;
    while k < kids.len()
        invariant
            k <= kids@.len(),
            fd < nodes.len(),
            list == indices(kids@),
            list == named_children(nodes.deep_view(), i as int),
            in_range(kids@, nodes@.len() as int),
            type_from(nodes.deep_view(), list, 0) == type_from(nodes.deep_view(), list, k as int),
        decreases kids@.len() - k,
    {
        let c: usize = kids[k];
        assert(list[k as int] == c as int);
        if same(nodes[c].field.as_str(), "type") || same(nodes[c].kind.as_str(), "type_qualifier") {
            let t = span_of(source, nodes[c].start, nodes[fd].start);
            return type_text(&words(t.as_str()));
        }
        k = k + 1;
    }
    String::new()
}

// ---------------------------------------------------------------------------
// Parameter lists
// ---------------------------------------------------------------------------

/// How deep brackets are open behind a character. Angle brackets count in types
/// only, since they compare in values.
pub open spec fn bracket_depth(depth: int, c: char, value: bool) -> int {
    if c == '(' || c == '[' || c == '{' || (!value && c == '<') {
        depth + 1
    } else if depth > 0 && (c == ')' || c == ']' || c == '}' || (!value && c == '>')) {
        depth - 1
    } else {
        depth
    }
}

/// A quoted literal starts at `i`: an apostrophe between digits separates them.
pub open spec fn starts_literal(s: Seq<char>, i: int) -> bool {
    s[i] == '"' || (s[i] == '\'' && !(i > 0 && '0' <= s[i - 1] && s[i - 1] <= '9'))
}

/// The rest of a parameter list from `i` on, where brackets are open to `depth`,
/// `value` says whether a default value is being read, and `quote` which literal in
/// it. A default value ends at the comma outside of brackets and literals.
pub open spec fn rest_without_defaults(
    s: Seq<char>,
    depth: int,
    value: bool,
    quote: Option<char>,
    i: int,
) -> Seq<char>
    decreases s.len() - i,
{
    if i < 0 || i >= s.len() {
        Seq::empty()
    } else {
        match quote {
            Some(q) => if s[i] == '\\' && i + 1 < s.len() {
                rest_without_defaults(s, depth, value, quote, i + 2)
            } else if s[i] == q {
                rest_without_defaults(s, depth, value, None, i + 1)
            } else {
                rest_without_defaults(s, depth, value, quote, i + 1)
            },
            None => if s[i] == ',' && depth == 0 {
                seq![s[i]] + rest_without_defaults(s, 0, false, None, i + 1)
            } else if value {
                if starts_literal(s, i) {
                    rest_without_defaults(s, depth, true, Some(s[i]), i + 1)
                } else {
                    rest_without_defaults(s, bracket_depth(depth, s[i], true), true, None, i + 1)
                }
            } else if s[i] == '=' && depth == 0 {
                rest_without_defaults(s, 0, true, None, i + 1)
            } else {
                seq![s[i]] + rest_without_defaults(s, bracket_depth(depth, s[i], false), false, None, i + 1)
            },
        }
    }
}

/// A parameter list without its default values.
pub open spec fn without_defaults(params: Seq<char>) -> Seq<char> {
    rest_without_defaults(params, 0, false, None, 0)
}

/// Drops the default values of a parameter list.
pub fn drop_defaults(params: &str) -> (r: String)
    ensures
        r@ == without_defaults(params@),
{
    let s = chars_of(params);
    let mut out: Vec<char> = Vec::new();
    let mut depth: usize = 0;
    let mut value = false;
    let mut quote: Option<char> = None;
    let mut i: usize = 0;
    while i < s.len()
        invariant
            i <= s@.len(),
            s@ == params@,
            depth <= i,
            without_defaults(s@) =~= out@ + rest_without_defaults(s@, depth as int, value, quote, i as int),
        decreases s@.len() - i,
    {
        let c: char = s[i];
        let mut step: usize = 1;
        match quote {
            Some(q) => {
                if c == '\\' && i + 1 < s.len() {
                    step = 2;
                } else if c == q {
                    quote = None;
                }
            },
            None => {
                if c == ',' && depth == 0 {
                    out.push(c);
                    value = false;
                } else if !value && c == '=' && depth == 0 {
                    value = true;
                } else if value && (c == '"' || (c == '\'' && !(i > 0 && '0' <= s[i - 1] && s[i - 1] <= '9'))) {
                    quote = Some(c);
                } else {
                    if !value {
                        out.push(c);
                    }
                    if c == '(' || c == '[' || c == '{' || (!value && c == '<') {
                        depth = depth + 1;
                    } else if depth > 0 && (c == ')' || c == ']' || c == '}' || (!value && c == '>')) {
                        depth = depth - 1;
                    }
                }
            },
        }
        i = i + step;
    }
    text_of_all(&out)
}

/// What stands behind a function declarator marks the function as pure: `= 0`, with
/// any white space.
pub open spec fn marks_pure(rest: Seq<char>) -> bool {
    match find_from(rest, "="@, 0) {
        Some(k) => begins(trimmed_start(after(rest, k + 1)), "0"@),
        None => false,
    }
}

fn is_marked_pure(rest: &str) -> (r: bool)
    ensures
        r == marks_pure(rest@),
{
    proof {
        reveal_strlit("=");
    }
    match find(rest, "=") {
        Some(k) => {
            let n: usize = rest.unicode_len();
            assert(k + 1 <= n);
            starts_with(trim_start(tail_of(rest, k + 1)), "0")
        },
        None => false,
    }
}

/// The contract method that a field declaration declares in a public region: a
/// function that is virtual and pure and no destructor, whatever it returns.
pub open spec fn contract_method(source: Seq<char>, nodes: Seq<SyntaxNodeView>, c: int) -> Option<
    HalContractMethodView,
> {
    let text = node_text(source, nodes, c);
    let kids = named_children(nodes, c);
    match function_among(nodes, kids, kids.len() as int) {
        None => None,
        Some(f) => {
            let name = declared_name(source, nodes, f);
            let rest = span(source, nodes[f].end as int, nodes[c].end as int);
            if !has_text(text, "virtual"@) || !marks_pure(rest) {
                None
            } else if name.len() == 0 || begins(name, "~"@) {
                None
            } else {
                Some(
                    HalContractMethodView {
                        name,
                        return_type: result_type(source, nodes, c, f),
                        params: declared_params(source, nodes, f),
                    },
                )
            }
        },
    }
}

/// The contract methods among the first `n` members of a class body, and
/// whether the region behind them is public.
pub open spec fn body_methods(
    source: Seq<char>,
    nodes: Seq<SyntaxNodeView>,
    kids: Seq<int>,
    is_struct: bool,
    n: int,
) -> (bool, Seq<HalContractMethodView>)
    decreases n,
{
    if n <= 0 {
        (is_struct, Seq::empty())
    } else {
        let (public, methods) = body_methods(source, nodes, kids, is_struct, n - 1);
        let c = kids[n - 1];
        if nodes[c].kind == "access_specifier"@ {
            (begins(trimmed_start(node_text(source, nodes, c)), "public"@), methods)
        } else if nodes[c].kind != "field_declaration"@ {
            (public, methods)
        } else if !public {
            (public, methods)
        } else {
            match contract_method(source, nodes, c) {
                Some(m) => (public, methods.push(m)),
                None => (public, methods),
            }
        }
    }
}

/// The name of a class or struct.
pub open spec fn class_name(source: Seq<char>, nodes: Seq<SyntaxNodeView>, i: int) -> Seq<char> {
    match field_child(nodes, i, "name"@) {
        Some(n) => trimmed(node_text(source, nodes, n)),
        None => "(unnamed)"@,
    }
}

/// The contract methods of the class or struct at node `i`.
pub open spec fn class_methods(source: Seq<char>, nodes: Seq<SyntaxNodeView>, i: int) -> Seq<
    HalContractMethodView,
> {
    match field_child(nodes, i, "body"@) {
        Some(b) => {
            let kids = named_children(nodes, b);
            body_methods(
                source,
                nodes,
                kids,
                nodes[i].kind == "struct_specifier"@,
                kids.len() as int,
            ).1
        },
        None => Seq::empty(),
    }
}

/// The abstract classes among the first `n` classes of the list, each with its
/// contract methods.
pub open spec fn abstract_classes(
    source: Seq<char>,
    nodes: Seq<SyntaxNodeView>,
    list: Seq<int>,
    n: int,
) -> Seq<(Seq<char>, Seq<HalContractMethodView>)>
    decreases n,
{
    if n <= 0 {
        Seq::empty()
    } else {
        let done = abstract_classes(source, nodes, list, n - 1);
        let methods = class_methods(source, nodes, list[n - 1]);
        if methods.len() > 0 {
            done.push((class_name(source, nodes, list[n - 1]), methods))
        } else {
            done
        }
    }
}

/// The abstract classes of a syntax tree, each with its contract methods.
pub open spec fn contract_classes_of(source: Seq<char>, nodes: Seq<SyntaxNodeView>) -> Seq<
    (Seq<char>, Seq<HalContractMethodView>),
> {
    let list = tops(nodes, "class_specifier"@, "struct_specifier"@);
    abstract_classes(source, nodes, list, list.len() as int)
}

/// The abstract classes of a header, each with its contract methods.
pub open spec fn contract_classes(source: Seq<char>) -> Seq<
    (Seq<char>, Seq<HalContractMethodView>),
> {
    match cpp_syntax(source) {
        Some(nodes) => contract_classes_of(source, nodes),
        None => Seq::empty(),
    }
}

fn method_of_field(source: &Vec<char>, nodes: &Vec<SyntaxNode>, c: usize) -> (r: Option<
    HalContractMethod,
>)
    requires
        c < nodes.len(),
    ensures
        r.deep_view() == contract_method(source@, nodes.deep_view(), c as int),
{
    let ghost all = nodes.deep_view();
    let text = text_of_node(source, nodes, c);
    let kids = children_of(nodes, c);
    let ghost list = indices(kids@);
    let mut fd: Option<usize> = None;
    let mut k: usize = 0;
    while k < kids.len()
        invariant
            k <= kids@.len(),
            all == nodes.deep_view(),
            list == indices(kids@),
            in_range(kids@, nodes@.len() as int),
            fd matches Some(f) ==> f < nodes.len(),
            (match fd {
                Some(f) => function_among(all, list, k as int) == Some(f as int),
                None => function_among(all, list, k as int) is None,
            }),
        decreases kids@.len() - k,
    {
        let d: usize = kids[k];
        assert(list[k as int] == d as int);
        if may_declare_function(nodes[d].kind.as_str()) {
            let found = find_function(nodes, d);
            if found.is_some() {
                fd = found;
            }
        }
        k = k + 1;
    }
    match fd {
        None => None,
        Some(f) => {
            let (name, params) = function_declarator_name_params(source, nodes, f);
            let rest = span_of(source, nodes[f].end, nodes[c].end);
            if !contains(text.as_str(), "virtual") || !is_marked_pure(rest.as_str()) {
                None
            } else if name.as_str().unicode_len() == 0 || starts_with(name.as_str(), "~") {
                None
            } else {
                let return_type = type_of_result(source, nodes, c, f);
                Some(HalContractMethod { name, return_type, params })
            }
        },
    }
}

fn methods_of_class(source: &Vec<char>, nodes: &Vec<SyntaxNode>, i: usize) -> (r: Vec<
    HalContractMethod,
>)
    requires
        i < nodes.len(),
    ensures
        r.deep_view() == class_methods(source@, nodes.deep_view(), i as int),
{
    let ghost all = nodes.deep_view();
    let mut methods: Vec<HalContractMethod> = Vec::new();
    assert(methods.deep_view() =~= Seq::empty());
    let body = match child_in_field(nodes, i, "body") {
        Some(b) => b,
        None => {
            return methods;
        },
    };
    let is_struct = same(nodes[i].kind.as_str(), "struct_specifier");
    let kids = children_of(nodes, body);
    let ghost list = indices(kids@);
    let mut is_public = is_struct;
    let mut k: usize = 0;
    while k < kids.len()
        invariant
            k <= kids@.len(),
            all == nodes.deep_view(),
            list == indices(kids@),
            in_range(kids@, nodes@.len() as int),
            is_public == body_methods(source@, all, list, is_struct, k as int).0,
            methods.deep_view() == body_methods(source@, all, list, is_struct, k as int).1,
        decreases kids@.len() - k,
    {
        let c: usize = kids[k];
        assert(list[k as int] == c as int);
        if same(nodes[c].kind.as_str(), "access_specifier") {
            let t = text_of_node(source, nodes, c);
            is_public = starts_with(trim_start(t.as_str()), "public");
        } else if same(nodes[c].kind.as_str(), "field_declaration") && is_public {
            match method_of_field(source, nodes, c) {
                Some(m) => {
                    add_item(&mut methods, m);
                },
                None => {},
            }
        }
        k = k + 1;
    }
    methods
}

fn name_of_class(source: &Vec<char>, nodes: &Vec<SyntaxNode>, i: usize) -> (r: String)
    requires
        i < nodes.len(),
    ensures
        r@ == class_name(source@, nodes.deep_view(), i as int),
{
    match child_in_field(nodes, i, "name") {
        Some(n) => {
            let t = text_of_node(source, nodes, n);
            trim(t.as_str()).to_owned()
        },
        None => "(unnamed)".to_owned(),
    }
}

/// The abstract classes of a syntax tree, each with its contract methods.
pub fn contract_classes_in(source: &str, nodes: &Vec<SyntaxNode>) -> (r: Vec<
    (String, Vec<HalContractMethod>),
>)
    ensures
        r.deep_view() == contract_classes_of(source@, nodes.deep_view()),
{
    let ghost all = nodes.deep_view();
    let source = chars_of(source);
    let found = outermost(nodes, "class_specifier", "struct_specifier");
    let ghost list = indices(found@);
    let mut out: Vec<(String, Vec<HalContractMethod>)> = Vec::new();
    assert(out.deep_view() =~= Seq::empty());
    let mut k: usize = 0;
    while k < found.len()
        invariant
            k <= found@.len(),
            all == nodes.deep_view(),
            list == indices(found@),
            in_range(found@, nodes@.len() as int),
            out.deep_view() == abstract_classes(source@, all, list, k as int),
        decreases found@.len() - k,
    {
        let i: usize = found[k];
        assert(list[k as int] == i as int);
        let methods = methods_of_class(&source, nodes, i);
        if methods.len() > 0 {
            add_item(&mut out, (name_of_class(&source, nodes, i), methods));
        }
        k = k + 1;
    }
    out
}

/// The abstract classes of a header, each with its public pure-virtual methods:
/// `(class name, methods)`.
pub fn extract_contract_methods_cpp(content: &str) -> (r: Vec<(String, Vec<HalContractMethod>)>)
    ensures
        r.deep_view() == contract_classes(content@),
{
    match parse_cpp(content) {
        Some(nodes) => contract_classes_in(content, &nodes),
        None => {
            let none: Vec<(String, Vec<HalContractMethod>)> = Vec::new();
            assert(none.deep_view() =~= Seq::empty());
            none
        },
    }
}

// ---------------------------------------------------------------------------
// Methods defined in their class
// ---------------------------------------------------------------------------

/// The name of the function that a definition defines.
pub open spec fn function_name(source: Seq<char>, nodes: Seq<SyntaxNodeView>, i: int) -> Option<Seq<char>> {
    match field_child(nodes, i, "declarator"@) {
        Some(d) => match function_node(nodes, d) {
            Some(f) => Some(declared_name(source, nodes, f)),
            None => None,
        },
        None => None,
    }
}

/// The names of the functions that the first `n` members of a class define.
pub open spec fn members_defined(
    source: Seq<char>,
    nodes: Seq<SyntaxNodeView>,
    kids: Seq<int>,
    n: int,
) -> Seq<Seq<char>>
    decreases n,
{
    if n <= 0 {
        Seq::empty()
    } else {
        let done = members_defined(source, nodes, kids, n - 1);
        let c = kids[n - 1];
        if nodes[c].kind == "function_definition"@ {
            match function_name(source, nodes, c) {
                Some(name) => done.push(name),
                None => done,
            }
        } else {
            done
        }
    }
}

/// The names of the functions that the first `n` classes define in themselves.
pub open spec fn inline_upto(
    source: Seq<char>,
    nodes: Seq<SyntaxNodeView>,
    list: Seq<int>,
    n: int,
) -> Seq<Seq<char>>
    decreases n,
{
    if n <= 0 {
        Seq::empty()
    } else {
        let done = inline_upto(source, nodes, list, n - 1);
        match field_child(nodes, list[n - 1], "body"@) {
            Some(b) => {
                let kids = named_children(nodes, b);
                done + members_defined(source, nodes, kids, kids.len() as int)
            },
            None => done,
        }
    }
}

/// The names of the methods that the classes of a text define in themselves.
pub open spec fn inline_definitions(source: Seq<char>) -> Seq<Seq<char>> {
    match cpp_syntax(source) {
        Some(nodes) => {
            let list = tops(nodes, "class_specifier"@, "struct_specifier"@);
            inline_upto(source, nodes, list, list.len() as int)
        },
        None => Seq::empty(),
    }
}

fn name_of_function(source: &Vec<char>, nodes: &Vec<SyntaxNode>, i: usize) -> (r: Option<String>)
    requires
        i < nodes.len(),
    ensures
        r.deep_view() == function_name(source@, nodes.deep_view(), i as int),
{
    match child_in_field(nodes, i, "declarator") {
        Some(d) => match find_function(nodes, d) {
            Some(f) => Some(function_declarator_name_params(source, nodes, f).0),
            None => None,
        },
        None => None,
    }
}

fn add_members(source: &Vec<char>, nodes: &Vec<SyntaxNode>, body: usize, out: &mut Vec<String>)
    requires
        body < nodes.len(),
    ensures
        ({
            let kids = named_children(nodes.deep_view(), body as int);
            final(out).deep_view() == old(out).deep_view() + members_defined(
                source@,
                nodes.deep_view(),
                kids,
                kids.len() as int,
            )
        }),
{
    let ghost all = nodes.deep_view();
    let ghost start = out.deep_view();
    let kids = children_of(nodes, body);
    let ghost list = indices(kids@);
    let mut k: usize = 0;
    assert(out.deep_view() =~= start + members_defined(source@, all, list, 0));
    while k < kids.len()
        invariant
            k <= kids@.len(),
            all == nodes.deep_view(),
            list == indices(kids@),
            in_range(kids@, nodes@.len() as int),
            out.deep_view() == start + members_defined(source@, all, list, k as int),
        decreases kids@.len() - k,
    {
        let c: usize = kids[k];
        assert(list[k as int] == c as int);
        if same(nodes[c].kind.as_str(), "function_definition") {
            if let Some(name) = name_of_function(source, nodes, c) {
                add_item(out, name);
            }
        }
        assert(out.deep_view() =~= start + members_defined(source@, all, list, k + 1));
        k = k + 1;
    }
}

/// The names of the methods that the classes of a text define in themselves.
pub fn list_inline_definitions(content: &str) -> (r: Vec<String>)
    ensures
        r.deep_view() == inline_definitions(content@),
{
    let mut out: Vec<String> = Vec::new();
    assert(out.deep_view() =~= Seq::empty());
    let nodes = match parse_cpp(content) {
        Some(nodes) => nodes,
        None => {
            return out;
        },
    };
    let source = chars_of(content);
    let ghost all = nodes.deep_view();
    let classes = outermost(&nodes, "class_specifier", "struct_specifier");
    let ghost list = indices(classes@);
    let mut i: usize = 0;
    while i < classes.len()
        invariant
            i <= classes@.len(),
            all == nodes.deep_view(),
            source@ == content@,
            list == indices(classes@),
            in_range(classes@, nodes@.len() as int),
            out.deep_view() == inline_upto(source@, all, list, i as int),
        decreases classes@.len() - i,
    {
        let c: usize = classes[i];
        assert(list[i as int] == c as int);
        if let Some(b) = child_in_field(&nodes, c, "body") {
            add_members(&source, &nodes, b, &mut out);
        }
        i = i + 1;
    }
    out
}

// ---------------------------------------------------------------------------
// Base classes
// ---------------------------------------------------------------------------

/// A word that stands before a base class and is none.
pub open spec fn is_access_word(name: Seq<char>) -> bool {
    name == "public"@ || name == "private"@ || name == "protected"@ || name == "virtual"@
}

/// The base that a child of a base class clause names: its last `::` segment.
pub open spec fn base_name(source: Seq<char>, nodes: Seq<SyntaxNodeView>, b: int) -> Seq<char> {
    trimmed(after_last(trimmed(node_text(source, nodes, b)), "::"@))
}

/// The bases with those of the first `n` children of a clause added, each once.
pub open spec fn clause_bases(
    source: Seq<char>,
    nodes: Seq<SyntaxNodeView>,
    kids: Seq<int>,
    bases: Seq<Seq<char>>,
    n: int,
) -> Seq<Seq<char>>
    decreases n,
{
    if n <= 0 {
        bases
    } else {
        let done = clause_bases(source, nodes, kids, bases, n - 1);
        let name = base_name(source, nodes, kids[n - 1]);
        if name.len() > 0 && !is_access_word(name) && !done.contains(name) {
            done.push(name)
        } else {
            done
        }
    }
}

/// The bases of a class, from the first `n` of its named children.
pub open spec fn bases_upto(
    source: Seq<char>,
    nodes: Seq<SyntaxNodeView>,
    kids: Seq<int>,
    n: int,
) -> Seq<Seq<char>>
    decreases n,
{
    if n <= 0 {
        Seq::empty()
    } else {
        let done = bases_upto(source, nodes, kids, n - 1);
        let c = kids[n - 1];
        if nodes[c].kind == "base_class_clause"@ {
            let inner = named_children(nodes, c);
            clause_bases(source, nodes, inner, done, inner.len() as int)
        } else {
            done
        }
    }
}

/// The bases of the class or struct at node `i`.
pub open spec fn bases_of(source: Seq<char>, nodes: Seq<SyntaxNodeView>, i: int) -> Seq<Seq<char>> {
    let kids = named_children(nodes, i);
    bases_upto(source, nodes, kids, kids.len() as int)
}

/// The named classes among the first `n` of the list, each with its bases.
pub open spec fn classes_upto(
    source: Seq<char>,
    nodes: Seq<SyntaxNodeView>,
    list: Seq<int>,
    n: int,
) -> Seq<(Seq<char>, Seq<Seq<char>>)>
    decreases n,
{
    if n <= 0 {
        Seq::empty()
    } else {
        let done = classes_upto(source, nodes, list, n - 1);
        let name = class_name(source, nodes, list[n - 1]);
        if begins(name, "(unnamed)"@) {
            done
        } else {
            done.push((name, bases_of(source, nodes, list[n - 1])))
        }
    }
}

/// The named classes of a syntax tree, each with its bases.
pub open spec fn base_classes_of(source: Seq<char>, nodes: Seq<SyntaxNodeView>) -> Seq<
    (Seq<char>, Seq<Seq<char>>),
> {
    let list = tops(nodes, "class_specifier"@, "struct_specifier"@);
    classes_upto(source, nodes, list, list.len() as int)
}

/// The named classes of a source, each with its bases.
pub open spec fn base_classes(source: Seq<char>) -> Seq<(Seq<char>, Seq<Seq<char>>)> {
    match cpp_syntax(source) {
        Some(nodes) => base_classes_of(source, nodes),
        None => Seq::empty(),
    }
}

fn add_clause_bases(
    source: &Vec<char>,
    nodes: &Vec<SyntaxNode>,
    c: usize,
    bases: &mut Vec<String>,
)
    requires
        c < nodes.len(),
    ensures
        final(bases).deep_view() == clause_bases(
            source@,
            nodes.deep_view(),
            named_children(nodes.deep_view(), c as int),
            old(bases).deep_view(),
            named_children(nodes.deep_view(), c as int).len() as int,
        ),
{
    let ghost all = nodes.deep_view();
    let ghost start = bases.deep_view();
    let kids = children_of(nodes, c);
    let ghost list = indices(kids@);
    let mut k: usize = 0;
    while k < kids.len()
        invariant
            k <= kids@.len(),
            all == nodes.deep_view(),
            list == indices(kids@),
            in_range(kids@, nodes@.len() as int),
            bases.deep_view() == clause_bases(source@, all, list, start, k as int),
        decreases kids@.len() - k,
    {
        let b: usize = kids[k];
        assert(list[k as int] == b as int);
        let t = text_of_node(source, nodes, b);
        let name = trim(behind_last(trim(t.as_str()), "::"));
        let access = same(name, "public") || same(name, "private") || same(name, "protected")
            || same(name, "virtual");
        if name.unicode_len() > 0 && !access && !list_has(bases, name) {
            add_item(bases, name.to_owned());
        }
        k = k + 1;
    }
}

fn bases_of_class(source: &Vec<char>, nodes: &Vec<SyntaxNode>, i: usize) -> (r: Vec<String>)
    requires
        i < nodes.len(),
    ensures
        r.deep_view() == bases_of(source@, nodes.deep_view(), i as int),
{
    let ghost all = nodes.deep_view();
    let kids = children_of(nodes, i);
    let ghost list = indices(kids@);
    let mut bases: Vec<String> = Vec::new();
    assert(bases.deep_view() =~= Seq::empty());
    let mut k: usize = 0;
    while k < kids.len()
        invariant
            k <= kids@.len(),
            all == nodes.deep_view(),
            list == indices(kids@),
            in_range(kids@, nodes@.len() as int),
            bases.deep_view() == bases_upto(source@, all, list, k as int),
        decreases kids@.len() - k,
    {
        let c: usize = kids[k];
        assert(list[k as int] == c as int);
        if same(nodes[c].kind.as_str(), "base_class_clause") {
            add_clause_bases(source, nodes, c, &mut bases);
        }
        k = k + 1;
    }
    bases
}

/// The named classes of a syntax tree, each with its bases.
pub fn base_classes_in(source: &str, nodes: &Vec<SyntaxNode>) -> (r: Vec<(String, Vec<String>)>)
    ensures
        r.deep_view() == base_classes_of(source@, nodes.deep_view()),
{
    let ghost all = nodes.deep_view();
    let source = chars_of(source);
    let found = outermost(nodes, "class_specifier", "struct_specifier");
    let ghost list = indices(found@);
    let mut out: Vec<(String, Vec<String>)> = Vec::new();
    assert(out.deep_view() =~= Seq::empty());
    let mut k: usize = 0;
    while k < found.len()
        invariant
            k <= found@.len(),
            all == nodes.deep_view(),
            list == indices(found@),
            in_range(found@, nodes@.len() as int),
            out.deep_view() == classes_upto(source@, all, list, k as int),
        decreases found@.len() - k,
    {
        let i: usize = found[k];
        assert(list[k as int] == i as int);
        let name = name_of_class(&source, nodes, i);
        if !starts_with(name.as_str(), "(unnamed)") {
            let bases = bases_of_class(&source, nodes, i);
            add_item(&mut out, (name, bases));
        }
        k = k + 1;
    }
    out
}

/// The classes and structs of a source with the names of their bases:
/// `(class name, base names)`.
pub fn extract_cpp_base_classes(content: &str) -> (r: Vec<(String, Vec<String>)>)
    ensures
        r.deep_view() == base_classes(content@),
{
    match parse_cpp(content) {
        Some(nodes) => base_classes_in(content, &nodes),
        None => {
            let none: Vec<(String, Vec<String>)> = Vec::new();
            assert(none.deep_view() =~= Seq::empty());
            none
        },
    }
}

// ---------------------------------------------------------------------------
// Method definitions
// ---------------------------------------------------------------------------

/// A qualified name whose last two segments agree: a constructor.
pub open spec fn is_constructor(raw: Seq<char>) -> bool {
    match find_last(raw, "::"@) {
        None => false,
        Some(k) => {
            let last = trimmed(after(raw, k + 2));
            last.len() > 0 && last == trimmed(after_last(before(raw, k), "::"@))
        },
    }
}

/// The text of the declarator that a function declarator holds.
pub open spec fn raw_name(source: Seq<char>, nodes: Seq<SyntaxNodeView>, fd: int) -> Seq<char> {
    match field_child(nodes, fd, "declarator"@) {
        Some(q) => node_text(source, nodes, q),
        None => Seq::empty(),
    }
}

/// The function declarator declares a qualified name.
pub open spec fn is_qualified(nodes: Seq<SyntaxNodeView>, fd: int) -> bool {
    match field_child(nodes, fd, "declarator"@) {
        Some(q) => nodes[q].kind == "qualified_identifier"@,
        None => false,
    }
}

/// The method that the function definition at node `i` defines out of its class;
/// `None` for a free function, a constructor, a destructor and what declares no
/// function.
pub open spec fn defined_method(source: Seq<char>, nodes: Seq<SyntaxNodeView>, i: int) -> Option<
    HalImplMethodView,
> {
    match field_child(nodes, i, "declarator"@) {
        None => None,
        Some(d) => match function_node(nodes, d) {
            None => None,
            Some(fd) => {
                let name = declared_name(source, nodes, fd);
                if !is_qualified(nodes, fd) || name.len() == 0 || begins(name, "~"@) || is_constructor(
                    raw_name(source, nodes, fd),
                ) {
                    None
                } else {
                    Some(
                        HalImplMethodView {
                            name,
                            return_type: result_type(source, nodes, i, fd),
                            params: declared_params(source, nodes, fd),
                        },
                    )
                }
            },
        },
    }
}

/// The methods that the first `n` definitions of the list define.
pub open spec fn definitions_upto(
    source: Seq<char>,
    nodes: Seq<SyntaxNodeView>,
    list: Seq<int>,
    n: int,
) -> Seq<HalImplMethodView>
    decreases n,
{
    if n <= 0 {
        Seq::empty()
    } else {
        let done = definitions_upto(source, nodes, list, n - 1);
        match defined_method(source, nodes, list[n - 1]) {
            Some(m) => done.push(m),
            None => done,
        }
    }
}

/// The methods that a syntax tree defines.
pub open spec fn definitions_of(source: Seq<char>, nodes: Seq<SyntaxNodeView>) -> Seq<
    HalImplMethodView,
> {
    let list = tops(nodes, "function_definition"@, "function_definition"@);
    definitions_upto(source, nodes, list, list.len() as int)
}

/// The methods that a source defines.
pub open spec fn definitions(source: Seq<char>) -> Seq<HalImplMethodView> {
    match cpp_syntax(source) {
        Some(nodes) => definitions_of(source, nodes),
        None => Seq::empty(),
    }
}

fn constructs(raw: &str) -> (r: bool)
    ensures
        r == is_constructor(raw@),
{
    proof {
        reveal_strlit("::");
    }
    match rfind(raw, "::") {
        None => false,
        Some(k) => {
            let len: usize = raw.unicode_len();
            assert(k + 2 <= len);
            let last = trim(tail_of(raw, k + 2));
            let owner = trim(behind_last(head_of(raw, k), "::"));
            last.unicode_len() > 0 && same(last, owner)
        },
    }
}

fn method_of_definition(source: &Vec<char>, nodes: &Vec<SyntaxNode>, i: usize) -> (r: Option<
    HalImplMethod,
>)
    requires
        i < nodes.len(),
    ensures
        r.deep_view() == defined_method(source@, nodes.deep_view(), i as int),
{
    let d: usize = match child_in_field(nodes, i, "declarator") {
        Some(d) => d,
        None => {
            return None;
        },
    };
    let fd: usize = match find_function(nodes, d) {
        Some(fd) => fd,
        None => {
            return None;
        },
    };
    let q: usize = match child_in_field(nodes, fd, "declarator") {
        Some(q) => q,
        None => {
            return None;
        },
    };
    if !same(nodes[q].kind.as_str(), "qualified_identifier") {
        return None;
    }
    let raw = text_of_node(source, nodes, q);
    let (name, params) = function_declarator_name_params(source, nodes, fd);
    if name.as_str().unicode_len() == 0 || starts_with(name.as_str(), "~") || constructs(
        raw.as_str(),
    ) {
        None
    } else {
        let return_type = type_of_result(source, nodes, i, fd);
        Some(HalImplMethod { name, return_type, params })
    }
}

/// The methods that a syntax tree defines.
pub fn definitions_in(source: &str, nodes: &Vec<SyntaxNode>) -> (r: Vec<HalImplMethod>)
    ensures
        r.deep_view() == definitions_of(source@, nodes.deep_view()),
{
    let ghost all = nodes.deep_view();
    let source = chars_of(source);
    let found = outermost(nodes, "function_definition", "function_definition");
    let ghost list = indices(found@);
    let mut out: Vec<HalImplMethod> = Vec::new();
    assert(out.deep_view() =~= Seq::empty());
    let mut k: usize = 0;
    while k < found.len()
        invariant
            k <= found@.len(),
            all == nodes.deep_view(),
            list == indices(found@),
            in_range(found@, nodes@.len() as int),
            out.deep_view() == definitions_upto(source@, all, list, k as int),
        decreases found@.len() - k,
    {
        let i: usize = found[k];
        assert(list[k as int] == i as int);
        match method_of_definition(&source, nodes, i) {
            Some(m) => {
                add_item(&mut out, m);
            },
            None => {},
        }
        k = k + 1;
    }
    out
}

/// The methods that a C++ source defines, constructors and destructors left
/// out.
pub fn extract_cpp_method_definitions_ts(content: &str) -> (r: Vec<HalImplMethod>)
    ensures
        r.deep_view() == definitions(content@),
{
    match parse_cpp(content) {
        Some(nodes) => definitions_in(content, &nodes),
        None => {
            let none: Vec<HalImplMethod> = Vec::new();
            assert(none.deep_view() =~= Seq::empty());
            none
        },
    }
}

// ---------------------------------------------------------------------------
// Syntax check
// ---------------------------------------------------------------------------

/// One C++ syntax error: its place (both counted from one, the column in bytes),
/// the kind of the syntax node and the line it stands on.
#[derive(Debug, PartialEq, Eq)]
pub struct CppSyntaxError {
    pub line: u32,
    pub col: u32,
    pub kind: String,
    pub context: String,
}

/// What a [`CppSyntaxError`] holds.
#[verifier::ext_equal]
pub struct CppSyntaxErrorView {
    pub line: u32,
    pub col: u32,
    pub kind: Seq<char>,
    pub context: Seq<char>,
}

impl DeepView for CppSyntaxError {
    type V = CppSyntaxErrorView;

    open spec fn deep_view(&self) -> CppSyntaxErrorView {
        CppSyntaxErrorView {
            line: self.line,
            col: self.col,
            kind: self.kind@,
            context: self.context@,
        }
    }
}

impl Clone for CppSyntaxError {
    fn clone(&self) -> (r: Self)
        ensures
            r.deep_view() == self.deep_view(),
    {
        CppSyntaxError {
            line: self.line,
            col: self.col,
            kind: self.kind.clone(),
            context: self.context.clone(),
        }
    }
}

/// The outcome of a structural C++ syntax check.
#[derive(Debug, PartialEq, Eq)]
pub struct CppSyntaxReport {
    pub ok: bool,
    pub errors: Vec<CppSyntaxError>,
}

/// What a [`CppSyntaxReport`] holds.
#[verifier::ext_equal]
pub struct CppSyntaxReportView {
    pub ok: bool,
    pub errors: Seq<CppSyntaxErrorView>,
}

impl DeepView for CppSyntaxReport {
    type V = CppSyntaxReportView;

    open spec fn deep_view(&self) -> CppSyntaxReportView {
        CppSyntaxReportView {
            ok: self.ok,
            errors: self.errors.deep_view(),
        }
    }
}

/// The number of bytes of `s[..n]` behind its last line feed.
pub open spec fn byte_column(s: Seq<char>, n: int) -> int
    decreases n,
{
    if n <= 0 || s[n - 1] == '\n' {
        0
    } else {
        byte_column(s, n - 1) + width(s[n - 1])
    }
}

/// The trimmed line of a text, empty behind its last one.
pub open spec fn line_at(source: Seq<char>, row: int) -> Seq<char> {
    if 0 <= row < line_seq(source).len() {
        trimmed(line_seq(source)[row])
    } else {
        Seq::empty()
    }
}

/// The place of a node: row and byte column, both from zero.
pub open spec fn node_place(source: Seq<char>, n: SyntaxNodeView) -> (int, int) {
    let i = index_at(source, n.start as int);
    (feeds(source, i), byte_column(source, i))
}

/// The place of a node: row and byte column, both from zero.
pub fn place_of(chars: &Vec<char>, start: usize) -> (r: (u32, u32))
    requires
        chars@.len() < 0x3fff_ffff,
    ensures
        r.0 == feeds(chars@, index_at(chars@, start as int)),
        r.1 == byte_column(chars@, index_at(chars@, start as int)),
        r.0 < u32::MAX,
        r.1 < u32::MAX,
{
    let n: usize = char_index(chars, start);
    let mut row: u32 = 0;
    let mut col: u32 = 0;
    let mut i: usize = 0;
    while i < n
        invariant
            i <= n <= chars@.len() < 0x3fff_ffff,
            row == feeds(chars@, i as int),
            col == byte_column(chars@, i as int),
            row <= i,
            col <= 4 * i,
        decreases n - i,
    {
        let c: char = chars[i];
        if c == '\n' {
            row = row + 1;
            col = 0;
        } else {
            col = col + width_of(c) as u32;
        }
        i = i + 1;
    }
    (row, col)
}

/// One error entry: place from one, kind, and the line at that row.
pub open spec fn error_at(source: Seq<char>, n: SyntaxNodeView) -> CppSyntaxErrorView {
    let (row, col) = node_place(source, n);
    CppSyntaxErrorView {
        line: (row + 1) as u32,
        col: (col + 1) as u32,
        kind: n.kind,
        context: line_at(source, row),
    }
}

/// The report on a syntax tree: no errors where the root holds none; else the
/// outermost faulty nodes among the named ones, last one first.
pub open spec fn syntax_report_of(source: Seq<char>, nodes: Seq<SyntaxNodeView>) -> (
    bool,
    Seq<CppSyntaxErrorView>,
) {
    if nodes.len() == 0 || !nodes[0].has_error {
        (true, Seq::empty())
    } else {
        let list = faults_from(nodes, 0);
        (false, Seq::new(list.len(), |k: int| error_at(source, nodes[list[list.len() - 1 - k]])))
    }
}

/// The report on a parse: not in order where there is no tree.
pub open spec fn syntax_report(source: Seq<char>, tree: Option<Seq<SyntaxNodeView>>) -> (
    bool,
    Seq<CppSyntaxErrorView>,
) {
    match tree {
        Some(nodes) => syntax_report_of(source, nodes),
        None => (false, Seq::empty()),
    }
}

/// The report on a syntax tree.
pub fn syntax_report_in(source: &str, tree: &Option<Vec<SyntaxNode>>) -> (r: (
    bool,
    Vec<CppSyntaxError>,
))
    requires
        source@.len() < 0x3fff_ffff,
    ensures
        r.deep_view() == syntax_report(source@, tree.deep_view()),
{
    let mut errors: Vec<CppSyntaxError> = Vec::new();
    assert(errors.deep_view() =~= Seq::empty());
    let nodes = match tree {
        Some(nodes) => nodes,
        None => {
            return (false, errors);
        },
    };
    if nodes.len() == 0 || !nodes[0].has_error {
        return (true, errors);
    }
    let ghost all = nodes.deep_view();
    let rows = lines(source);
    let chars = chars_of(source);
    let found = fault_nodes(nodes);
    let ghost list = indices(found@);
    let mut k: usize = found.len();
    while k > 0
        invariant
            k <= found@.len(),
            all == nodes.deep_view(),
            chars@ == source@,
            chars@.len() < 0x3fff_ffff,
            rows.deep_view() == line_seq(source@),
            list == indices(found@),
            in_range(found@, nodes@.len() as int),
            errors.deep_view() == Seq::new(
                (list.len() - k) as nat,
                |j: int| error_at(source@, all[list[list.len() - 1 - j]]),
            ),
        decreases k,
    {
        k = k - 1;
        let i: usize = found[k];
        assert(list[k as int] == i as int);
        let (row, col) = place_of(&chars, nodes[i].start);
        let context = if (row as usize) < rows.len() {
            trim(rows[row as usize].as_str()).to_owned()
        } else {
            String::new()
        };
        let kind = nodes[i].kind.clone();
        add_item(&mut errors, CppSyntaxError { line: row + 1, col: col + 1, kind, context });
        assert(errors.deep_view() =~= Seq::new(
            (list.len() - k) as nat,
            |j: int| error_at(source@, all[list[list.len() - 1 - j]]),
        ));
    }
    (false, errors)
}

/// A structural C++ syntax check: whether the text parses without an error, and
/// where it does not.
pub fn cpp_syntax_check(content: &str) -> (r: CppSyntaxReport)
    requires
        content@.len() < 0x3fff_ffff,
    ensures
        (r.ok, r.errors.deep_view()) == syntax_report(content@, cpp_syntax(content@)),
{
    let tree = parse_cpp(content);
    let (ok, errors) = syntax_report_in(content, &tree);
    CppSyntaxReport { ok, errors }
}

// ---------------------------------------------------------------------------
// Header kinds
// ---------------------------------------------------------------------------

/// What a header below an API directory is.
#[derive(Debug, Clone, Copy, PartialEq, Eq, Structural)]
pub enum HalHeaderKind {
    /// It derives the module base or declares a public pure-virtual method.
    Contract,
    /// It declares classes or structs but no contract.
    DataOnly,
    /// It declares no class or struct.
    NoClass,
    /// It could not be read or parsed.
    ParseError,
}

/// Some class names the base.
pub open spec fn has_base(classes: Seq<(Seq<char>, Seq<Seq<char>>)>, base: Seq<char>) -> bool {
    exists|i: int| 0 <= i < classes.len() && (#[trigger] classes[i]).1.contains(base)
}

/// Some class derives the HAL module base.
pub open spec fn derives_module(content: Seq<char>) -> bool {
    has_base(base_classes(content), "HalModule"@) || has_base(
        base_classes(content),
        "hal::HalModule"@,
    )
}

/// Whether some class names the base.
pub fn names_base(classes: &Vec<(String, Vec<String>)>, base: &str) -> (r: bool)
    ensures
        r == has_base(classes.deep_view(), base@),
{
    let ghost all = classes.deep_view();
    let mut i: usize = 0;
    while i < classes.len()
        invariant
            i <= classes@.len(),
            all == classes.deep_view(),
            forall|j: int| 0 <= j < i ==> !(#[trigger] all[j]).1.contains(base@),
        decreases classes@.len() - i,
    {
        assert(all[i as int].1 == classes[i as int].1.deep_view());
        if list_has(&classes[i].1, base) {
            return true;
        }
        i = i + 1;
    }
    false
}

/// Whether some class of the header derives the HAL module base.
pub fn derives_hal_module(content: &str) -> (r: bool)
    ensures
        r == derives_module(content@),
{
    let classes = extract_cpp_base_classes(content);
    names_base(&classes, "HalModule") || names_base(&classes, "hal::HalModule")
}

/// The kind of a header with the given syntax tree.
pub open spec fn kind_of(source: Seq<char>, nodes: Seq<SyntaxNodeView>) -> HalHeaderKind {
    let bases = base_classes_of(source, nodes);
    if has_base(bases, "HalModule"@) || has_base(bases, "hal::HalModule"@) || contract_classes_of(
        source,
        nodes,
    ).len() > 0 {
        HalHeaderKind::Contract
    } else if tops(nodes, "class_specifier"@, "struct_specifier"@).len() > 0 {
        HalHeaderKind::DataOnly
    } else {
        HalHeaderKind::NoClass
    }
}

/// The kind of a header with the given text; `None` where it could not be read.
pub open spec fn header_kind(content: Option<Seq<char>>) -> HalHeaderKind {
    match content {
        None => HalHeaderKind::ParseError,
        Some(c) => match cpp_syntax(c) {
            None => HalHeaderKind::ParseError,
            Some(nodes) => kind_of(c, nodes),
        },
    }
}

/// Classifies a header by its syntax tree.
pub fn classify_nodes(source: &str, nodes: &Vec<SyntaxNode>) -> (r: HalHeaderKind)
    ensures
        r == kind_of(source@, nodes.deep_view()),
{
    let bases = base_classes_in(source, nodes);
    if names_base(&bases, "HalModule") || names_base(&bases, "hal::HalModule") || contract_classes_in(
        source,
        nodes,
    ).len() > 0 {
        return HalHeaderKind::Contract;
    }
    let found = outermost(nodes, "class_specifier", "struct_specifier");
    assert(indices(found@).len() == found@.len());
    if found.len() > 0 {
        HalHeaderKind::DataOnly
    } else {
        HalHeaderKind::NoClass
    }
}

/// Classifies a header by its text; `None` stands for a file that could not be
/// read.
pub fn classify_hal_header(content: &Option<String>) -> (r: HalHeaderKind)
    ensures
        r == header_kind(content.deep_view()),
{
    match content {
        None => HalHeaderKind::ParseError,
        Some(c) => match parse_cpp(c.as_str()) {
            None => HalHeaderKind::ParseError,
            Some(nodes) => classify_nodes(c.as_str(), &nodes),
        },
    }
}

} // verus!
