//! Rust HAL contracts: traits, what implements them, and what is missing.
//!
//! A trait plays the part of an abstract class and an `impl` that of a platform's
//! subclass; the measure of what a platform still owes has the same shape.

use vstd::prelude::*;

use crate::coverage::{canonical_upto, HalInterfaceCoverage, HalInterfaceCoverageView};
use crate::coverage::is_skipped;
use crate::coverage::skips;
use crate::cpp::{syntax_report, syntax_report_in, CppSyntaxErrorView};
use crate::project::{
    content_at, dir_at, has_extension, join_path, name_of, names_in, path_join, path_name, stem_of, file_stem,
    with_extension, EntryView, ProjectTree, ProjectTreeView,
};
use crate::syntax::{
    all_of_kind, alls, child_in_field, children_of, field_child, in_range, indices, named_children,
    node_text, parse_rust, rust_syntax, text_of_node, SyntaxNode, SyntaxNodeView,
};
use crate::table::{has_key, key_from, put, put_new, with_new, with_value};
use crate::text::{
    add_item, add_items, after, after_last, append_texts, begins, behind_last, char_number, chars_of, contains,
    copy_texts, ends, ends_with, has_text, list_has, pieces, same, split, starts_with, tail_of, trim, trimmed,
};

verus! {

// ---------------------------------------------------------------------------
// What a text declares
// ---------------------------------------------------------------------------

/// The names of the functions of the kind among the first `n` of the nodes.
pub open spec fn names_upto(
    source: Seq<char>,
    nodes: Seq<SyntaxNodeView>,
    kids: Seq<int>,
    kind: Seq<char>,
    n: int,
) -> Seq<Seq<char>>
    decreases n,
{
    if n <= 0 {
        Seq::empty()
    } else {
        let done = names_upto(source, nodes, kids, kind, n - 1);
        let k = kids[n - 1];
        if nodes[k].kind == kind {
            match field_child(nodes, k, "name"@) {
                Some(m) => done.push(trimmed(node_text(source, nodes, m))),
                None => done,
            }
        } else {
            done
        }
    }
}

/// The names of the functions of the kind directly in a body.
pub open spec fn functions_in(
    source: Seq<char>,
    nodes: Seq<SyntaxNodeView>,
    body: int,
    kind: Seq<char>,
) -> Seq<Seq<char>> {
    let kids = named_children(nodes, body);
    names_upto(source, nodes, kids, kind, kids.len() as int)
}

fn list_functions(source: &Vec<char>, nodes: &Vec<SyntaxNode>, body: usize, kind: &str) -> (r: Vec<
    String,
>)
    requires
        body < nodes.len(),
    ensures
        r.deep_view() == functions_in(source@, nodes.deep_view(), body as int, kind@),
{
    let ghost all = nodes.deep_view();
    let found = children_of(nodes, body);
    let ghost kids = indices(found@);
    let mut out: Vec<String> = Vec::new();
    assert(out.deep_view() =~= Seq::empty());
    let mut i: usize = 0;
    while i < found.len()
        invariant
            i <= found@.len(),
            all == nodes.deep_view(),
            kids == indices(found@),
            in_range(found@, nodes@.len() as int),
            out.deep_view() == names_upto(source@, all, kids, kind@, i as int),
        decreases found@.len() - i,
    {
        let k: usize = found[i];
        assert(kids[i as int] == k as int);
        if same(nodes[k].kind.as_str(), kind) {
            if let Some(m) = child_in_field(nodes, k, "name") {
                add_item(&mut out, trim(text_of_node(source, nodes, m).as_str()).to_owned());
            }
        }
        i = i + 1;
    }
    out
}

/// What is read of a Rust text.
#[derive(Debug, Clone, Copy, PartialEq, Eq, Structural)]
pub enum Declared {
    /// Each trait with the methods that an `impl` must provide.
    Traits,
    /// Each trait that is implemented with the methods that are provided.
    TraitImpls,
    /// Each type with inherent methods, and those.
    TypeImpls,
}

/// The kind of node that is read.
pub open spec fn declared_kind(what: Declared) -> Seq<char> {
    match what {
        Declared::Traits => "trait_item"@,
        _ => "impl_item"@,
    }
}

/// The functions in a body, none without a body.
pub open spec fn body_functions(
    source: Seq<char>,
    nodes: Seq<SyntaxNodeView>,
    i: int,
    kind: Seq<char>,
) -> Seq<Seq<char>> {
    match field_child(nodes, i, "body"@) {
        Some(body) => functions_in(source, nodes, body, kind),
        None => Seq::empty(),
    }
}

/// The name of a trait: the last part of its path, without type arguments.
pub open spec fn bare_name(path: Seq<char>) -> Seq<char> {
    after_last(trimmed(pieces(path, '<')[0]), "::"@)
}

fn name_of_trait(path: &str) -> (r: String)
    ensures
        r@ == bare_name(path@),
{
    let parts = split(path, '<');
    assert(parts.deep_view()[0] == parts[0]@);
    behind_last(trim(parts[0].as_str()), "::").to_owned()
}

/// What one node declares: a name and its functions. A trait's function with a
/// body is provided by the trait itself and is not among them.
pub open spec fn declared_at(
    what: Declared,
    source: Seq<char>,
    nodes: Seq<SyntaxNodeView>,
    i: int,
) -> Option<(Seq<char>, Seq<Seq<char>>)> {
    match what {
        Declared::Traits => Some(
            (
                match field_child(nodes, i, "name"@) {
                    Some(m) => trimmed(node_text(source, nodes, m)),
                    None => "(unnamed)"@,
                },
                body_functions(source, nodes, i, "function_signature_item"@),
            ),
        ),
        Declared::TraitImpls => match field_child(nodes, i, "trait"@) {
            Some(m) => Some(
                (
                    bare_name(node_text(source, nodes, m)),
                    body_functions(source, nodes, i, "function_item"@),
                ),
            ),
            None => None,
        },
        Declared::TypeImpls => match (
            field_child(nodes, i, "trait"@),
            field_child(nodes, i, "type"@),
            field_child(nodes, i, "body"@),
        ) {
            (None, Some(m), Some(body)) => Some(
                (
                    trimmed(node_text(source, nodes, m)),
                    functions_in(source, nodes, body, "function_item"@),
                ),
            ),
            _ => None,
        },
    }
}

/// What the first `n` of the nodes declare.
pub open spec fn declared_upto(
    what: Declared,
    source: Seq<char>,
    nodes: Seq<SyntaxNodeView>,
    list: Seq<int>,
    n: int,
) -> Seq<(Seq<char>, Seq<Seq<char>>)>
    decreases n,
{
    if n <= 0 {
        Seq::empty()
    } else {
        let done = declared_upto(what, source, nodes, list, n - 1);
        match declared_at(what, source, nodes, list[n - 1]) {
            Some(row) => done.push(row),
            None => done,
        }
    }
}

/// What a syntax tree declares, in order; nothing where there is no tree.
pub open spec fn declared_in(
    what: Declared,
    source: Seq<char>,
    tree: Option<Seq<SyntaxNodeView>>,
) -> Seq<(Seq<char>, Seq<Seq<char>>)> {
    match tree {
        Some(nodes) => {
            let list = alls(nodes, declared_kind(what));
            declared_upto(what, source, nodes, list, list.len() as int)
        },
        None => Seq::empty(),
    }
}

fn find_body_functions(source: &Vec<char>, nodes: &Vec<SyntaxNode>, i: usize, kind: &str) -> (r: Vec<
    String,
>)
    requires
        i < nodes.len(),
    ensures
        r.deep_view() == body_functions(source@, nodes.deep_view(), i as int, kind@),
{
    match child_in_field(nodes, i, "body") {
        Some(body) => list_functions(source, nodes, body, kind),
        None => {
            let none: Vec<String> = Vec::new();
            assert(none.deep_view() =~= Seq::empty());
            none
        },
    }
}

fn find_declared_at(what: Declared, source: &Vec<char>, nodes: &Vec<SyntaxNode>, i: usize) -> (r: Option<
    (String, Vec<String>),
>)
    requires
        i < nodes.len(),
    ensures
        r.deep_view() == declared_at(what, source@, nodes.deep_view(), i as int),
{
    match what {
        Declared::Traits => {
            let name = match child_in_field(nodes, i, "name") {
                Some(m) => trim(text_of_node(source, nodes, m).as_str()).to_owned(),
                None => "(unnamed)".to_owned(),
            };
            Some((name, find_body_functions(source, nodes, i, "function_signature_item")))
        },
        Declared::TraitImpls => match child_in_field(nodes, i, "trait") {
            Some(m) => {
                let path = text_of_node(source, nodes, m);
                let name = name_of_trait(path.as_str());
                Some((name, find_body_functions(source, nodes, i, "function_item")))
            },
            None => None,
        },
        Declared::TypeImpls => {
            if child_in_field(nodes, i, "trait").is_some() {
                return None;
            }
            match child_in_field(nodes, i, "type") {
                Some(m) => match child_in_field(nodes, i, "body") {
                    Some(body) => {
                        let name = trim(text_of_node(source, nodes, m).as_str()).to_owned();
                        Some((name, list_functions(source, nodes, body, "function_item")))
                    },
                    None => None,
                },
                None => None,
            }
        },
    }
}

/// What a syntax tree declares, in order; nothing where there is no tree.
pub fn find_declared(what: Declared, source: &str, tree: &Option<Vec<SyntaxNode>>) -> (r: Vec<
    (String, Vec<String>),
>)
    ensures
        r.deep_view() == declared_in(what, source@, tree.deep_view()),
{
    let mut out: Vec<(String, Vec<String>)> = Vec::new();
    assert(out.deep_view() =~= Seq::empty());
    let nodes = match tree {
        Some(nodes) => nodes,
        None => {
            return out;
        },
    };
    let ghost all = nodes.deep_view();
    let chars = chars_of(source);
    let found = match what {
        Declared::Traits => all_of_kind(nodes, "trait_item"),
        _ => all_of_kind(nodes, "impl_item"),
    };
    let ghost list = indices(found@);
    let mut i: usize = 0;
    while i < found.len()
        invariant
            i <= found@.len(),
            all == nodes.deep_view(),
            chars@ == source@,
            list == indices(found@),
            in_range(found@, nodes@.len() as int),
            out.deep_view() == declared_upto(what, source@, all, list, i as int),
        decreases found@.len() - i,
    {
        let k: usize = found[i];
        assert(list[i as int] == k as int);
        if let Some(row) = find_declared_at(what, &chars, nodes, k) {
            add_item(&mut out, row);
        }
        i = i + 1;
    }
    out
}

/// Every trait of a Rust text with the methods that an `impl` must provide:
/// those without a default body.
pub open spec fn required_traits(content: Seq<char>) -> Seq<(Seq<char>, Seq<Seq<char>>)> {
    declared_in(Declared::Traits, content, rust_syntax(content))
}

/// Every `impl Trait for Type` of a Rust text: the trait's bare name and the
/// methods that are provided.
pub open spec fn trait_impls(content: Seq<char>) -> Seq<(Seq<char>, Seq<Seq<char>>)> {
    declared_in(Declared::TraitImpls, content, rust_syntax(content))
}

/// Every inherent `impl Type` of a Rust text: the type and its methods.
pub open spec fn type_impls(content: Seq<char>) -> Seq<(Seq<char>, Seq<Seq<char>>)> {
    declared_in(Declared::TypeImpls, content, rust_syntax(content))
}

/// Every trait of a Rust text with the methods that an `impl` must provide.
pub fn required_trait_methods_rust(content: &str) -> (r: Vec<(String, Vec<String>)>)
    ensures
        r.deep_view() == required_traits(content@),
{
    find_declared(Declared::Traits, content, &parse_rust(content))
}

/// Every `impl Trait for Type` of a Rust text with the methods it provides.
/// Inherent impls satisfy no contract and are left out.
pub fn extract_impl_methods_rust(content: &str) -> (r: Vec<(String, Vec<String>)>)
    ensures
        r.deep_view() == trait_impls(content@),
{
    find_declared(Declared::TraitImpls, content, &parse_rust(content))
}

/// Every inherent `impl Type` of a Rust text with its methods.
pub fn extract_inherent_methods_rust(content: &str) -> (r: Vec<(String, Vec<String>)>)
    ensures
        r.deep_view() == type_impls(content@),
{
    find_declared(Declared::TypeImpls, content, &parse_rust(content))
}

// ---------------------------------------------------------------------------
// Placeholders
// ---------------------------------------------------------------------------

/// The trait of an `impl` whose body holds `unimplemented!`.
pub open spec fn pending_impl(source: Seq<char>, nodes: Seq<SyntaxNodeView>, i: int) -> Option<
    Seq<char>,
> {
    match (field_child(nodes, i, "body"@), field_child(nodes, i, "trait"@)) {
        (Some(body), Some(m)) => if has_text(node_text(source, nodes, body), "unimplemented!"@) {
            Some(bare_name(node_text(source, nodes, m)))
        } else {
            None
        },
        _ => None,
    }
}

/// The name of a function whose body holds `unimplemented!` or `todo!`.
pub open spec fn pending_method(source: Seq<char>, nodes: Seq<SyntaxNodeView>, i: int) -> Option<
    Seq<char>,
> {
    match (field_child(nodes, i, "body"@), field_child(nodes, i, "name"@)) {
        (Some(body), Some(m)) => if has_text(node_text(source, nodes, body), "unimplemented!"@)
            || has_text(node_text(source, nodes, body), "todo!"@) {
            Some(trimmed(node_text(source, nodes, m)))
        } else {
            None
        },
        _ => None,
    }
}

/// The placeholders among the first `n` of the nodes.
pub open spec fn pending_upto(
    methods: bool,
    source: Seq<char>,
    nodes: Seq<SyntaxNodeView>,
    list: Seq<int>,
    n: int,
) -> Seq<Seq<char>>
    decreases n,
{
    if n <= 0 {
        Seq::empty()
    } else {
        let done = pending_upto(methods, source, nodes, list, n - 1);
        match (if methods {
            pending_method(source, nodes, list[n - 1])
        } else {
            pending_impl(source, nodes, list[n - 1])
        }) {
            Some(name) => done.push(name),
            None => done,
        }
    }
}

/// The placeholders of a syntax tree: methods or whole impls.
pub open spec fn pending_in(
    methods: bool,
    source: Seq<char>,
    tree: Option<Seq<SyntaxNodeView>>,
) -> Seq<Seq<char>> {
    match tree {
        Some(nodes) => {
            let list = alls(
                nodes,
                if methods {
                    "function_item"@
                } else {
                    "impl_item"@
                },
            );
            pending_upto(methods, source, nodes, list, list.len() as int)
        },
        None => Seq::empty(),
    }
}

fn find_pending_at(methods: bool, source: &Vec<char>, nodes: &Vec<SyntaxNode>, i: usize) -> (r: Option<
    String,
>)
    requires
        i < nodes.len(),
    ensures
        r.deep_view() == (if methods {
            pending_method(source@, nodes.deep_view(), i as int)
        } else {
            pending_impl(source@, nodes.deep_view(), i as int)
        }),
{
    let field = if methods {
        "name"
    } else {
        "trait"
    };
    match child_in_field(nodes, i, "body") {
        Some(body) => match child_in_field(nodes, i, field) {
            Some(m) => {
                let text = text_of_node(source, nodes, body);
                let name = text_of_node(source, nodes, m);
                if methods {
                    if contains(text.as_str(), "unimplemented!") || contains(text.as_str(), "todo!") {
                        Some(trim(name.as_str()).to_owned())
                    } else {
                        None
                    }
                } else if contains(text.as_str(), "unimplemented!") {
                    Some(name_of_trait(name.as_str()))
                } else {
                    None
                }
            },
            None => None,
        },
        None => None,
    }
}

/// The placeholders of a syntax tree: methods or whole impls.
pub fn find_pending(methods: bool, source: &str, tree: &Option<Vec<SyntaxNode>>) -> (r: Vec<String>)
    ensures
        r.deep_view() == pending_in(methods, source@, tree.deep_view()),
{
    let mut out: Vec<String> = Vec::new();
    assert(out.deep_view() =~= Seq::empty());
    let nodes = match tree {
        Some(nodes) => nodes,
        None => {
            return out;
        },
    };
    let ghost all = nodes.deep_view();
    let chars = chars_of(source);
    let found = if methods {
        all_of_kind(nodes, "function_item")
    } else {
        all_of_kind(nodes, "impl_item")
    };
    let ghost list = indices(found@);
    let mut i: usize = 0;
    while i < found.len()
        invariant
            i <= found@.len(),
            all == nodes.deep_view(),
            chars@ == source@,
            list == indices(found@),
            in_range(found@, nodes@.len() as int),
            out.deep_view() == pending_upto(methods, source@, all, list, i as int),
        decreases found@.len() - i,
    {
        let k: usize = found[i];
        assert(list[i as int] == k as int);
        if let Some(name) = find_pending_at(methods, &chars, nodes, k) {
            add_item(&mut out, name);
        }
        i = i + 1;
    }
    out
}

/// The traits of a Rust text whose impls are still placeholders.
pub open spec fn pending_impls(content: Seq<char>) -> Seq<Seq<char>> {
    pending_in(false, content, rust_syntax(content))
}

/// The methods of a Rust text whose bodies are still placeholders.
pub open spec fn pending_methods(content: Seq<char>) -> Seq<Seq<char>> {
    pending_in(true, content, rust_syntax(content))
}

/// The traits of a Rust text whose `impl` bodies still hold `unimplemented!`.
pub fn placeholder_impls_rust(content: &str) -> (r: Vec<String>)
    ensures
        r.deep_view() == pending_impls(content@),
{
    find_pending(false, content, &parse_rust(content))
}

/// The functions of a Rust text whose bodies still hold `unimplemented!` or
/// `todo!`.
pub fn placeholder_methods_rust(content: &str) -> (r: Vec<String>)
    ensures
        r.deep_view() == pending_methods(content@),
{
    find_pending(true, content, &parse_rust(content))
}

// ---------------------------------------------------------------------------
// Syntax errors
// ---------------------------------------------------------------------------

/// One place where a Rust text does not parse.
#[derive(Debug, PartialEq, Eq)]
pub struct RustSyntaxError {
    /// Counted from one.
    pub line: u32,
    /// Counted from one, in bytes.
    pub col: u32,
    pub kind: String,
    /// The line's text.
    pub context: String,
}

/// What a [`RustSyntaxError`] holds.
#[verifier::ext_equal]
pub struct RustSyntaxErrorView {
    pub line: u32,
    pub col: u32,
    pub kind: Seq<char>,
    pub context: Seq<char>,
}

impl DeepView for RustSyntaxError {
    type V = RustSyntaxErrorView;

    open spec fn deep_view(&self) -> RustSyntaxErrorView {
        RustSyntaxErrorView {
            line: self.line,
            col: self.col,
            kind: self.kind@,
            context: self.context@,
        }
    }
}

impl Clone for RustSyntaxError {
    fn clone(&self) -> (r: Self)
        ensures
            r.deep_view() == self.deep_view(),
    {
        RustSyntaxError {
            line: self.line,
            col: self.col,
            kind: self.kind.clone(),
            context: self.context.clone(),
        }
    }
}

/// The outcome of a Rust syntax check.
#[derive(Debug, PartialEq, Eq)]
pub struct RustSyntaxReport {
    pub ok: bool,
    pub errors: Vec<RustSyntaxError>,
}

/// The same place in a Rust text.
pub open spec fn rust_error(e: CppSyntaxErrorView) -> RustSyntaxErrorView {
    RustSyntaxErrorView { line: e.line, col: e.col, kind: e.kind, context: e.context }
}

/// Checks the structure of a Rust text: whether it parses, and the outermost
/// places where it does not, last one first.
pub fn rust_syntax_check(content: &str) -> (r: RustSyntaxReport)
    requires
        content@.len() < 0x3fff_ffff,
    ensures
        ({
            let (ok, errors) = syntax_report(content@, rust_syntax(content@));
            r.ok == ok && r.errors.deep_view() == Seq::new(
                errors.len(),
                |i: int| rust_error(errors[i]),
            )
        }),
{
    let tree = parse_rust(content);
    let (ok, found) = syntax_report_in(content, &tree);
    let ghost all = found.deep_view();
    let ghost one = |i: int| rust_error(all[i]);
    let mut errors: Vec<RustSyntaxError> = Vec::new();
    assert(errors.deep_view() =~= Seq::new(0, one));
    let mut i: usize = 0;
    while i < found.len()
        invariant
            i <= found@.len(),
            all == found.deep_view(),
            one == (|i: int| rust_error(all[i])),
            errors.deep_view() == Seq::new(i as nat, one),
        decreases found@.len() - i,
    {
        let e = &found[i];
        add_item(
            &mut errors,
            RustSyntaxError {
                line: e.line,
                col: e.col,
                kind: e.kind.clone(),
                context: e.context.clone(),
            },
        );
        assert(errors.deep_view() =~= Seq::new((i + 1) as nat, one));
        i = i + 1;
    }
    RustSyntaxReport { ok, errors }
}

// ---------------------------------------------------------------------------
// Drift
// ---------------------------------------------------------------------------

/// The names among the first `n` that are not provided.
pub open spec fn absent_upto(names: Seq<Seq<char>>, provided: Seq<Seq<char>>, n: int) -> Seq<Seq<char>>
    decreases n,
{
    if n <= 0 {
        Seq::empty()
    } else {
        let done = absent_upto(names, provided, n - 1);
        if provided.contains(names[n - 1]) {
            done
        } else {
            done.push(names[n - 1])
        }
    }
}

/// The names that are not provided, in order.
pub open spec fn absent(names: Seq<Seq<char>>, provided: Seq<Seq<char>>) -> Seq<Seq<char>> {
    absent_upto(names, provided, names.len() as int)
}

/// The names that are not provided, in order.
pub fn list_absent(names: &Vec<String>, provided: &Vec<String>) -> (r: Vec<String>)
    ensures
        r.deep_view() == absent(names.deep_view(), provided.deep_view()),
{
    let mut out: Vec<String> = Vec::new();
    assert(out.deep_view() =~= Seq::empty());
    let mut i: usize = 0;
    while i < names.len()
        invariant
            i <= names@.len(),
            out.deep_view() == absent_upto(names.deep_view(), provided.deep_view(), i as int),
        decreases names@.len() - i,
    {
        if !list_has(provided, names[i].as_str()) {
            add_item(&mut out, names[i].clone());
        }
        i = i + 1;
    }
    out
}

/// The methods of the first row of that name.
pub open spec fn methods_of(rows: Seq<(Seq<char>, Seq<Seq<char>>)>, name: Seq<char>) -> Seq<Seq<char>> {
    match key_from(rows, name, 0) {
        Some(k) => rows[k].1,
        None => Seq::empty(),
    }
}

/// What the impls leave out of the first `n` contracts; a contract that is
/// complete has no row.
pub open spec fn drift_upto(
    contracts: Seq<(Seq<char>, Seq<Seq<char>>)>,
    impls: Seq<(Seq<char>, Seq<Seq<char>>)>,
    n: int,
) -> Seq<(Seq<char>, Seq<Seq<char>>)>
    decreases n,
{
    if n <= 0 {
        Seq::empty()
    } else {
        let done = drift_upto(contracts, impls, n - 1);
        let missing = absent(contracts[n - 1].1, methods_of(impls, contracts[n - 1].0));
        if missing.len() > 0 {
            done.push((contracts[n - 1].0, missing))
        } else {
            done
        }
    }
}

/// What the impls leave out of the contracts.
pub fn find_drift(
    contracts: &Vec<(String, Vec<String>)>,
    impls: &Vec<(String, Vec<String>)>,
) -> (r: Vec<(String, Vec<String>)>)
    ensures
        r.deep_view() == drift_upto(
            contracts.deep_view(),
            impls.deep_view(),
            contracts.deep_view().len() as int,
        ),
{
    let ghost all = contracts.deep_view();
    let ghost rows = impls.deep_view();
    let mut out: Vec<(String, Vec<String>)> = Vec::new();
    assert(out.deep_view() =~= Seq::empty());
    let mut i: usize = 0;
    while i < contracts.len()
        invariant
            i <= contracts@.len(),
            all == contracts.deep_view(),
            rows == impls.deep_view(),
            out.deep_view() == drift_upto(all, rows, i as int),
        decreases contracts@.len() - i,
    {
        assert(all[i as int] == (contracts[i as int].0@, contracts[i as int].1.deep_view()));
        let provided = match crate::table::find_key(impls, contracts[i].0.as_str()) {
            Some(k) => {
                assert(rows[k as int] == (impls[k as int].0@, impls[k as int].1.deep_view()));
                copy_texts(&impls[k].1)
            },
            None => Vec::new(),
        };
        assert(provided.deep_view() =~= methods_of(rows, all[i as int].0));
        let missing = list_absent(&contracts[i].1, &provided);
        if missing.len() > 0 {
            add_item(&mut out, (contracts[i].0.clone(), missing));
        }
        i = i + 1;
    }
    out
}

/// What an implementation leaves out of a contract.
pub open spec fn drift_of(contract: Seq<char>, implementation: Seq<char>) -> Seq<
    (Seq<char>, Seq<Seq<char>>),
> {
    drift_upto(
        required_traits(contract),
        trait_impls(implementation),
        required_traits(contract).len() as int,
    )
}

/// The contract methods that an implementation does not provide, by trait. A
/// trait without any `impl` lacks all of its required methods.
pub fn missing_trait_methods_rust(contract: &str, implementation: &str) -> (r: Vec<
    (String, Vec<String>),
>)
    ensures
        r.deep_view() == drift_of(contract@, implementation@),
{
    let impls = extract_impl_methods_rust(implementation);
    let contracts = required_trait_methods_rust(contract);
    find_drift(&contracts, &impls)
}

// ---------------------------------------------------------------------------
// Coverage
// ---------------------------------------------------------------------------

/// The interface under which a backend's board is measured.
pub const BOARD_INTERFACE: &'static str = "board";

/// The type whose constructors a backend owes.
pub const BOARD_TYPE: &'static str = "Board";

/// The constructors that every backend owes.
pub open spec fn owed_by_board() -> Seq<Seq<char>> {
    seq!["led"@, "delay"@]
}

/// The constructors that every backend owes.
pub fn board_methods() -> (r: Vec<String>)
    ensures
        r.deep_view() == owed_by_board(),
{
    let r = vec!["led".to_owned(), "delay".to_owned()];
    assert(r.deep_view() =~= owed_by_board());
    r
}

/// A contract: the traits of its file, each with the methods it requires.
pub type RustContract = Vec<(String, Vec<String>)>;

/// The two characters are the same, or the same ASCII letter in two cases.
pub open spec fn same_letter(a: char, b: char) -> bool {
    ||| a == b
    ||| 'A' <= a && a <= 'Z' && b as int == a as int + 32
    ||| 'A' <= b && b <= 'Z' && a as int == b as int + 32
}

/// The two texts are the same but for the case of ASCII letters.
pub open spec fn same_but_case(a: Seq<char>, b: Seq<char>) -> bool {
    a.len() == b.len() && forall|i: int| 0 <= i < a.len() ==> same_letter(#[trigger] a[i], b[i])
}

/// Whether the two texts are the same but for the case of ASCII letters.
pub fn eq_ignore_ascii_case(a: &str, b: &str) -> (r: bool)
    ensures
        r == same_but_case(a@, b@),
{
    let x = chars_of(a);
    let y = chars_of(b);
    if x.len() != y.len() {
        return false;
    }
    let mut i: usize = 0;
    while i < x.len()
        invariant
            i <= x@.len(),
            x@ == a@,
            y@ == b@,
            x@.len() == y@.len(),
            forall|j: int| 0 <= j < i ==> same_letter(#[trigger] a@[j], b@[j]),
        decreases x@.len() - i,
    {
        let (c, d) = (x[i], y[i]);
        let (m, n): (u32, u32) = (char_number(c), char_number(d));
        let alike = c == d || ('A' <= c && c <= 'Z' && n > m && n - m == 32) || ('A' <= d && d <= 'Z'
            && m > n && m - n == 32);
        if !alike {
            assert(!same_letter(a@[i as int], b@[i as int]));
            return false;
        }
        assert(same_letter(a@[i as int], b@[i as int]));
        i = i + 1;
    }
    true
}

/// The inherent impls of the first `n` texts.
pub open spec fn inherent_upto(texts: Seq<Seq<char>>, n: int) -> Seq<(Seq<char>, Seq<Seq<char>>)>
    decreases n,
{
    if n <= 0 {
        Seq::empty()
    } else {
        inherent_upto(texts, n - 1) + type_impls(texts[n - 1])
    }
}

fn all_inherent(texts: &Vec<String>) -> (r: Vec<(String, Vec<String>)>)
    ensures
        r.deep_view() == inherent_upto(texts.deep_view(), texts.deep_view().len() as int),
{
    let mut out: Vec<(String, Vec<String>)> = Vec::new();
    assert(out.deep_view() =~= Seq::empty());
    let mut i: usize = 0;
    while i < texts.len()
        invariant
            i <= texts@.len(),
            out.deep_view() == inherent_upto(texts.deep_view(), i as int),
        decreases texts@.len() - i,
    {
        add_items(&mut out, extract_inherent_methods_rust(texts[i].as_str()));
        i = i + 1;
    }
    out
}

/// The trait impls of the first `n` texts.
pub open spec fn provided_upto(texts: Seq<Seq<char>>, n: int) -> Seq<(Seq<char>, Seq<Seq<char>>)>
    decreases n,
{
    if n <= 0 {
        Seq::empty()
    } else {
        provided_upto(texts, n - 1) + trait_impls(texts[n - 1])
    }
}

fn all_provided(texts: &Vec<String>) -> (r: Vec<(String, Vec<String>)>)
    ensures
        r.deep_view() == provided_upto(texts.deep_view(), texts.deep_view().len() as int),
{
    let mut out: Vec<(String, Vec<String>)> = Vec::new();
    assert(out.deep_view() =~= Seq::empty());
    let mut i: usize = 0;
    while i < texts.len()
        invariant
            i <= texts@.len(),
            out.deep_view() == provided_upto(texts.deep_view(), i as int),
        decreases texts@.len() - i,
    {
        add_items(&mut out, extract_impl_methods_rust(texts[i].as_str()));
        i = i + 1;
    }
    out
}

/// The placeholder impls of the first `n` texts.
pub open spec fn unwritten_upto(texts: Seq<Seq<char>>, n: int) -> Seq<Seq<char>>
    decreases n,
{
    if n <= 0 {
        Seq::empty()
    } else {
        unwritten_upto(texts, n - 1) + pending_impls(texts[n - 1])
    }
}

fn all_unwritten(texts: &Vec<String>) -> (r: Vec<String>)
    ensures
        r.deep_view() == unwritten_upto(texts.deep_view(), texts.deep_view().len() as int),
{
    let mut out: Vec<String> = Vec::new();
    assert(out.deep_view() =~= Seq::empty());
    let mut i: usize = 0;
    while i < texts.len()
        invariant
            i <= texts@.len(),
            out.deep_view() == unwritten_upto(texts.deep_view(), i as int),
        decreases texts@.len() - i,
    {
        add_items(&mut out, placeholder_impls_rust(texts[i].as_str()));
        i = i + 1;
    }
    out
}

/// The placeholder methods of the first `n` texts.
pub open spec fn unfilled_upto(texts: Seq<Seq<char>>, n: int) -> Seq<Seq<char>>
    decreases n,
{
    if n <= 0 {
        Seq::empty()
    } else {
        unfilled_upto(texts, n - 1) + pending_methods(texts[n - 1])
    }
}

fn all_unfilled(texts: &Vec<String>) -> (r: Vec<String>)
    ensures
        r.deep_view() == unfilled_upto(texts.deep_view(), texts.deep_view().len() as int),
{
    let mut out: Vec<String> = Vec::new();
    assert(out.deep_view() =~= Seq::empty());
    let mut i: usize = 0;
    while i < texts.len()
        invariant
            i <= texts@.len(),
            out.deep_view() == unfilled_upto(texts.deep_view(), i as int),
        decreases texts@.len() - i,
    {
        add_items(&mut out, placeholder_methods_rust(texts[i].as_str()));
        i = i + 1;
    }
    out
}


/// The Rust texts among the first `n` entries that stand below a directory, at
/// any depth.
pub open spec fn texts_below_upto(entries: Seq<EntryView>, dir: Seq<char>, n: int) -> Seq<Seq<char>>
    decreases n,
{
    if n <= 0 {
        Seq::empty()
    } else {
        let done = texts_below_upto(entries, dir, n - 1);
        let e = entries[n - 1];
        if begins(e.path, dir + "/"@) && !e.is_dir && has_extension(name_of(e.path), "rs"@) {
            match e.content {
                Some(c) => done.push(c),
                None => done,
            }
        } else {
            done
        }
    }
}

/// The Rust texts that stand below a directory, at any depth.
pub open spec fn texts_below(t: ProjectTreeView, dir: Seq<char>) -> Seq<Seq<char>> {
    texts_below_upto(t.entries, dir, t.entries.len() as int)
}

/// The Rust texts that stand below a directory, at any depth.
pub fn rust_sources(tree: &ProjectTree, dir: &str) -> (r: Vec<String>)
    ensures
        r.deep_view() == texts_below(tree.deep_view(), dir@),
{
    let ghost all = tree.deep_view().entries;
    let mut below = dir.to_owned();
    below.append("/");
    let mut out: Vec<String> = Vec::new();
    assert(out.deep_view() =~= Seq::empty());
    let mut i: usize = 0;
    while i < tree.entries.len()
        invariant
            i <= tree.entries@.len(),
            all == tree.deep_view().entries,
            below@ == dir@ + "/"@,
            out.deep_view() == texts_below_upto(all, dir@, i as int),
        decreases tree.entries@.len() - i,
    {
        let e = &tree.entries[i];
        assert(all[i as int] == e.deep_view());
        if starts_with(e.path.as_str(), below.as_str()) && !e.is_dir && with_extension(
            path_name(e.path.as_str()),
            "rs",
        ) {
            if let Some(c) = &e.content {
                add_item(&mut out, c.clone());
            }
        }
        i = i + 1;
    }
    out
}

/// The methods of the rows of that name among the first `n`.
pub open spec fn named_methods_upto(
    rows: Seq<(Seq<char>, Seq<Seq<char>>)>,
    name: Seq<char>,
    n: int,
) -> Seq<Seq<char>>
    decreases n,
{
    if n <= 0 {
        Seq::empty()
    } else {
        let done = named_methods_upto(rows, name, n - 1);
        if rows[n - 1].0 == name {
            done + rows[n - 1].1
        } else {
            done
        }
    }
}

/// What a backend's board still owes, from its inherent impls and its
/// placeholder methods; `None` where it has no board. A placeholder is not
/// coverage: a board with one among its constructors is not implemented, and one
/// of which every constructor is a placeholder is a stub.
pub open spec fn board_of(
    rows: Seq<(Seq<char>, Seq<Seq<char>>)>,
    placeholders: Seq<Seq<char>>,
) -> Option<HalInterfaceCoverageView> {
    if !has_key(rows, BOARD_TYPE@) {
        None
    } else {
        let missing = absent(
            owed_by_board(),
            named_methods_upto(rows, BOARD_TYPE@, rows.len() as int),
        );
        let led = placeholders.contains("led"@);
        let delay = placeholders.contains("delay"@);
        let is_stub = led && delay;
        Some(
            HalInterfaceCoverageView {
                implemented: missing.len() == 0 && !led && !delay,
                has_impl: true,
                is_stub,
                missing,
                missing_sigs: Seq::empty(),
                drifted: Seq::empty(),
            },
        )
    }
}

/// What a backend's board still owes.
pub fn board_from(rows: &Vec<(String, Vec<String>)>, placeholders: &Vec<String>) -> (r: Option<
    HalInterfaceCoverage,
>)
    ensures
        r.deep_view() == board_of(rows.deep_view(), placeholders.deep_view()),
{
    let ghost all = rows.deep_view();
    if crate::table::find_key(rows, BOARD_TYPE).is_none() {
        return None;
    }
    let mut provided: Vec<String> = Vec::new();
    assert(provided.deep_view() =~= Seq::empty());
    let mut i: usize = 0;
    while i < rows.len()
        invariant
            i <= rows@.len(),
            all == rows.deep_view(),
            provided.deep_view() == named_methods_upto(all, BOARD_TYPE@, i as int),
        decreases rows@.len() - i,
    {
        assert(all[i as int] == (rows[i as int].0@, rows[i as int].1.deep_view()));
        if same(rows[i].0.as_str(), BOARD_TYPE) {
            append_texts(&mut provided, &rows[i].1);
        }
        i = i + 1;
    }
    let missing = list_absent(&board_methods(), &provided);
    let led = list_has(placeholders, "led");
    let delay = list_has(placeholders, "delay");
    let is_stub = led && delay;
    let c = HalInterfaceCoverage {
        implemented: missing.len() == 0 && !led && !delay,
        has_impl: true,
        is_stub,
        missing,
        missing_sigs: Vec::new(),
        drifted: Vec::new(),
    };
    assert(c.missing_sigs.deep_view() =~= Seq::empty());
    assert(c.drifted.deep_view() =~= Seq::empty());
    Some(c)
}

/// What the board of a backend directory still owes.
pub open spec fn board_at(t: ProjectTreeView, dir: Seq<char>) -> Option<HalInterfaceCoverageView> {
    let texts = texts_below(t, dir);
    board_of(
        inherent_upto(texts, texts.len() as int),
        unfilled_upto(texts, texts.len() as int),
    )
}

/// What the board of a backend directory still owes; `None` where it declares
/// none, so that a project without boards is never asked for one.
pub fn board_coverage(tree: &ProjectTree, dir: &str) -> (r: Option<HalInterfaceCoverage>)
    ensures
        r.deep_view() == board_at(tree.deep_view(), dir@),
{
    let texts = rust_sources(tree, dir);
    board_from(&all_inherent(&texts), &all_unfilled(&texts))
}

/// The rows among the first `n` that have methods.
pub open spec fn owing_upto(rows: Seq<(Seq<char>, Seq<Seq<char>>)>, n: int) -> Seq<
    (Seq<char>, Seq<Seq<char>>),
>
    decreases n,
{
    if n <= 0 {
        Seq::empty()
    } else {
        let done = owing_upto(rows, n - 1);
        if rows[n - 1].1.len() > 0 {
            done.push(rows[n - 1])
        } else {
            done
        }
    }
}

/// The contract that a text declares: its traits that require something.
pub open spec fn contract_in(content: Seq<char>) -> Seq<(Seq<char>, Seq<Seq<char>>)> {
    owing_upto(required_traits(content), required_traits(content).len() as int)
}

fn read_contract(content: &str) -> (r: RustContract)
    ensures
        r.deep_view() == contract_in(content@),
{
    let rows = required_trait_methods_rust(content);
    let ghost all = rows.deep_view();
    let mut out: RustContract = Vec::new();
    assert(out.deep_view() =~= Seq::empty());
    let mut i: usize = 0;
    while i < rows.len()
        invariant
            i <= rows@.len(),
            all == rows.deep_view(),
            out.deep_view() == owing_upto(all, i as int),
        decreases rows@.len() - i,
    {
        assert(all[i as int] == (rows[i as int].0@, rows[i as int].1.deep_view()));
        if rows[i].1.len() > 0 {
            add_item(&mut out, (rows[i].0.clone(), copy_texts(&rows[i].1)));
        }
        i = i + 1;
    }
    out
}

/// The table of contracts with those of the first `n` files of a directory,
/// under the files' stems.
pub open spec fn contracts_upto(
    t: ProjectTreeView,
    dir: Seq<char>,
    names: Seq<Seq<char>>,
    table: Seq<(Seq<char>, Seq<(Seq<char>, Seq<Seq<char>>)>)>,
    n: int,
) -> Seq<(Seq<char>, Seq<(Seq<char>, Seq<Seq<char>>)>)>
    decreases n,
{
    if n <= 0 {
        table
    } else {
        let done = contracts_upto(t, dir, names, table, n - 1);
        match content_at(t, path_join(dir, names[n - 1])) {
            Some(c) => if has_extension(names[n - 1], "rs"@) && contract_in(c).len() > 0 {
                with_value(done, stem_of(names[n - 1]), contract_in(c))
            } else {
                done
            },
            None => done,
        }
    }
}

/// The table of contracts with those of a directory.
pub open spec fn with_contracts(
    t: ProjectTreeView,
    dir: Seq<char>,
    table: Seq<(Seq<char>, Seq<(Seq<char>, Seq<Seq<char>>)>)>,
) -> Seq<(Seq<char>, Seq<(Seq<char>, Seq<Seq<char>>)>)> {
    let names = names_in(t, dir);
    contracts_upto(t, dir, names, table, names.len() as int)
}

fn add_contracts(tree: &ProjectTree, dir: &str, table: &mut Vec<(String, RustContract)>)
    ensures
        final(table).deep_view() == with_contracts(tree.deep_view(), dir@, old(table).deep_view()),
{
    let ghost t = tree.deep_view();
    let ghost start = table.deep_view();
    let names = tree.list(dir);
    let mut i: usize = 0;
    while i < names.len()
        invariant
            i <= names@.len(),
            t == tree.deep_view(),
            table.deep_view() == contracts_upto(t, dir@, names.deep_view(), start, i as int),
        decreases names@.len() - i,
    {
        let name = names[i].as_str();
        if let Some(c) = tree.read(join_path(dir, name).as_str()) {
            if with_extension(name, "rs") {
                let traits = read_contract(c.as_str());
                if traits.len() > 0 {
                    put(table, file_stem(name).to_owned(), traits);
                }
            }
        }
        i = i + 1;
    }
}

/// The crates among the first `n` names below `crates`.
pub open spec fn crates_upto(t: ProjectTreeView, names: Seq<Seq<char>>, n: int) -> Seq<Seq<char>>
    decreases n,
{
    if n <= 0 {
        Seq::empty()
    } else {
        let done = crates_upto(t, names, n - 1);
        if dir_at(t, path_join("crates"@, names[n - 1])) {
            done.push(names[n - 1])
        } else {
            done
        }
    }
}

/// The crates of a project.
pub open spec fn crates_of(t: ProjectTreeView) -> Seq<Seq<char>> {
    crates_upto(t, names_in(t, "crates"@), names_in(t, "crates"@).len() as int)
}

fn list_crates(tree: &ProjectTree) -> (r: Vec<String>)
    ensures
        r.deep_view() == crates_of(tree.deep_view()),
{
    let ghost t = tree.deep_view();
    let names = tree.list("crates");
    let mut out: Vec<String> = Vec::new();
    assert(out.deep_view() =~= Seq::empty());
    let mut i: usize = 0;
    while i < names.len()
        invariant
            i <= names@.len(),
            t == tree.deep_view(),
            out.deep_view() == crates_upto(t, names.deep_view(), i as int),
        decreases names@.len() - i,
    {
        if tree.is_dir(join_path("crates", names[i].as_str()).as_str()) {
            add_item(&mut out, names[i].clone());
        }
        i = i + 1;
    }
    out
}

/// The sources of a crate.
pub open spec fn crate_src(name: Seq<char>) -> Seq<char> {
    path_join(path_join("crates"@, name), "src"@)
}

/// The table of backends with those among the first `n` crates that belong to a
/// contract crate, under their families; `std` is no family.
pub open spec fn backends_upto(
    t: ProjectTreeView,
    name: Seq<char>,
    crates: Seq<Seq<char>>,
    table: Seq<(Seq<char>, Seq<char>)>,
    n: int,
) -> Seq<(Seq<char>, Seq<char>)>
    decreases n,
{
    if n <= 0 {
        table
    } else {
        let done = backends_upto(t, name, crates, table, n - 1);
        let candidate = crates[n - 1];
        let family = after(candidate, name.len() as int + 1);
        if begins(candidate, name + "-"@) && family != "std"@ && dir_at(t, crate_src(candidate)) {
            with_value(done, family, crate_src(candidate))
        } else {
            done
        }
    }
}

fn add_backends(
    tree: &ProjectTree,
    name: &str,
    crates: &Vec<String>,
    table: &mut Vec<(String, String)>,
)
    ensures
        final(table).deep_view() == backends_upto(
            tree.deep_view(),
            name@,
            crates.deep_view(),
            old(table).deep_view(),
            crates.deep_view().len() as int,
        ),
{
    let ghost t = tree.deep_view();
    let ghost start = table.deep_view();
    let mut lead = name.to_owned();
    lead.append("-");
    proof {
        reveal_strlit("-");
    }
    let size: usize = lead.as_str().unicode_len();
    let mut i: usize = 0;
    while i < crates.len()
        invariant
            i <= crates@.len(),
            t == tree.deep_view(),
            lead@ == name@ + "-"@,
            size == name@.len() + 1,
            size == lead@.len(),
            table.deep_view() == backends_upto(t, name@, crates.deep_view(), start, i as int),
        decreases crates@.len() - i,
    {
        let candidate = crates[i].as_str();
        if starts_with(candidate, lead.as_str()) {
            let family = tail_of(candidate, size);
            let src = join_path(join_path("crates", candidate).as_str(), "src");
            if !same(family, "std") && tree.is_dir(src.as_str()) {
                put(table, family.to_owned(), src);
            }
        }
        i = i + 1;
    }
}

/// The layout of contract crates and backend crates, from the first `n` crates:
/// contracts by stem and backend sources by family.
pub open spec fn crate_layout_upto(t: ProjectTreeView, crates: Seq<Seq<char>>, n: int) -> (
    Seq<(Seq<char>, Seq<(Seq<char>, Seq<Seq<char>>)>)>,
    Seq<(Seq<char>, Seq<char>)>,
)
    decreases n,
{
    if n <= 0 {
        (Seq::empty(), Seq::empty())
    } else {
        let (contracts, backends) = crate_layout_upto(t, crates, n - 1);
        let name = crates[n - 1];
        if ends(name, "-hal"@) {
            (
                with_contracts(t, path_join(crate_src(name), "hal"@), contracts),
                backends_upto(t, name, crates, backends, crates.len() as int),
            )
        } else {
            (contracts, backends)
        }
    }
}

/// The layout of contract crates and backend crates.
pub open spec fn crate_layout(t: ProjectTreeView) -> (
    Seq<(Seq<char>, Seq<(Seq<char>, Seq<Seq<char>>)>)>,
    Seq<(Seq<char>, Seq<char>)>,
) {
    crate_layout_upto(t, crates_of(t), crates_of(t).len() as int)
}

/// The layout of a contract crate `crates/<prefix>-hal` and one backend crate
/// `crates/<prefix>-hal-<family>` per family: contracts by the stem of their
/// file, and backend sources by family.
pub fn embedded_hal_layout(tree: &ProjectTree) -> (r: (
    Vec<(String, RustContract)>,
    Vec<(String, String)>,
))
    ensures
        r.0.deep_view() == crate_layout(tree.deep_view()).0,
        r.1.deep_view() == crate_layout(tree.deep_view()).1,
{
    let ghost t = tree.deep_view();
    let crates = list_crates(tree);
    let mut contracts: Vec<(String, RustContract)> = Vec::new();
    let mut backends: Vec<(String, String)> = Vec::new();
    assert(contracts.deep_view() =~= Seq::empty());
    assert(backends.deep_view() =~= Seq::empty());
    let mut i: usize = 0;
    while i < crates.len()
        invariant
            i <= crates@.len(),
            t == tree.deep_view(),
            contracts.deep_view() == crate_layout_upto(t, crates.deep_view(), i as int).0,
            backends.deep_view() == crate_layout_upto(t, crates.deep_view(), i as int).1,
        decreases crates@.len() - i,
    {
        let name = crates[i].as_str();
        if ends_with(name, "-hal") {
            let src = join_path(join_path("crates", name).as_str(), "src");
            add_contracts(tree, join_path(src.as_str(), "hal").as_str(), &mut contracts);
            add_backends(tree, name, &crates, &mut backends);
        }
        i = i + 1;
    }
    (contracts, backends)
}

/// One table with the first `n` entries of another put into it.
pub open spec fn extended_upto<V>(
    table: Seq<(Seq<char>, V)>,
    more: Seq<(Seq<char>, V)>,
    n: int,
) -> Seq<(Seq<char>, V)>
    decreases n,
{
    if n <= 0 {
        table
    } else {
        with_value(extended_upto(table, more, n - 1), more[n - 1].0, more[n - 1].1)
    }
}

/// One table with the first `n` entries of another put in where it has none.
pub open spec fn filled_upto<V>(
    table: Seq<(Seq<char>, V)>,
    more: Seq<(Seq<char>, V)>,
    n: int,
) -> Seq<(Seq<char>, V)>
    decreases n,
{
    if n <= 0 {
        table
    } else {
        with_new(filled_upto(table, more, n - 1), more[n - 1].0, more[n - 1].1)
    }
}

/// The Rust contracts of a project by stem.
pub open spec fn rust_contracts(t: ProjectTreeView) -> Seq<
    (Seq<char>, Seq<(Seq<char>, Seq<Seq<char>>)>),
> {
    let api = with_contracts(
        t,
        "toolkit/src/hal/api"@,
        with_contracts(t, "hal/api"@, Seq::empty()),
    );
    extended_upto(api, crate_layout(t).0, crate_layout(t).0.len() as int)
}

/// The platforms that the first `n` names of the root add in the layout
/// `<platform>/hal`. A build directory is no platform.
pub open spec fn old_platforms_upto(
    t: ProjectTreeView,
    names: Seq<Seq<char>>,
    table: Seq<(Seq<char>, Seq<char>)>,
    n: int,
) -> Seq<(Seq<char>, Seq<char>)>
    decreases n,
{
    if n <= 0 {
        table
    } else {
        let done = old_platforms_upto(t, names, table, n - 1);
        let path = path_join(names[n - 1], "hal"@);
        if dir_at(t, names[n - 1]) && !is_skipped(names[n - 1]) && !begins(names[n - 1], "build"@)
            && dir_at(t, path) {
            with_new(done, names[n - 1], path)
        } else {
            done
        }
    }
}

/// The platforms with Rust implementations: the canonical place first, then
/// `<platform>/hal`, then the backend crates.
pub open spec fn rust_platforms(t: ProjectTreeView) -> Seq<(Seq<char>, Seq<char>)> {
    let canonical = names_in(t, "hal/implementations"@);
    let top = names_in(t, Seq::empty());
    let backends = crate_layout(t).1;
    filled_upto(
        old_platforms_upto(
            t,
            top,
            canonical_upto(t, canonical, canonical.len() as int),
            top.len() as int,
        ),
        backends,
        backends.len() as int,
    )
}

fn list_platforms(tree: &ProjectTree, backends: &Vec<(String, String)>) -> (r: Vec<(String, String)>)
    requires
        backends.deep_view() == crate_layout(tree.deep_view()).1,
    ensures
        r.deep_view() == rust_platforms(tree.deep_view()),
{
    let ghost t = tree.deep_view();
    let mut table: Vec<(String, String)> = Vec::new();
    assert(table.deep_view() =~= Seq::empty());
    let names = tree.list("hal/implementations");
    let mut i: usize = 0;
    while i < names.len()
        invariant
            i <= names@.len(),
            t == tree.deep_view(),
            table.deep_view() == canonical_upto(t, names.deep_view(), i as int),
        decreases names@.len() - i,
    {
        let path = join_path("hal/implementations", names[i].as_str());
        if tree.is_dir(path.as_str()) && !starts_with(names[i].as_str(), ".") {
            put_new(&mut table, names[i].clone(), path);
        }
        i = i + 1;
    }
    let ghost first = table.deep_view();
    let empty = String::new();
    assert(empty@ =~= Seq::empty());
    let top = tree.list(empty.as_str());
    let mut i: usize = 0;
    while i < top.len()
        invariant
            i <= top@.len(),
            t == tree.deep_view(),
            table.deep_view() == old_platforms_upto(t, top.deep_view(), first, i as int),
        decreases top@.len() - i,
    {
        let name = top[i].as_str();
        let path = join_path(name, "hal");
        if tree.is_dir(name) && !skips(name) && !starts_with(name, "build") && tree.is_dir(
            path.as_str(),
        ) {
            put_new(&mut table, name.to_owned(), path);
        }
        i = i + 1;
    }
    let ghost second = table.deep_view();
    let ghost more = backends.deep_view();
    let mut i: usize = 0;
    while i < backends.len()
        invariant
            i <= backends@.len(),
            more == backends.deep_view(),
            table.deep_view() == filled_upto(second, more, i as int),
        decreases backends@.len() - i,
    {
        assert(more[i as int] == (backends[i as int].0@, backends[i as int].1@));
        put_new(&mut table, backends[i].0.clone(), backends[i].1.clone());
        i = i + 1;
    }
    table
}

/// The Rust texts among the first `n` files of a directory.
pub open spec fn dir_texts_upto(t: ProjectTreeView, dir: Seq<char>, names: Seq<Seq<char>>, n: int) -> Seq<
    Seq<char>,
>
    decreases n,
{
    if n <= 0 {
        Seq::empty()
    } else {
        let done = dir_texts_upto(t, dir, names, n - 1);
        match content_at(t, path_join(dir, names[n - 1])) {
            Some(c) => if has_extension(names[n - 1], "rs"@) {
                done.push(c)
            } else {
                done
            },
            None => done,
        }
    }
}

/// The Rust texts directly in a directory.
pub open spec fn dir_texts(t: ProjectTreeView, dir: Seq<char>) -> Seq<Seq<char>> {
    dir_texts_upto(t, dir, names_in(t, dir), names_in(t, dir).len() as int)
}

fn read_dir_texts(tree: &ProjectTree, dir: &str) -> (r: Vec<String>)
    ensures
        r.deep_view() == dir_texts(tree.deep_view(), dir@),
{
    let ghost t = tree.deep_view();
    let names = tree.list(dir);
    let mut out: Vec<String> = Vec::new();
    assert(out.deep_view() =~= Seq::empty());
    let mut i: usize = 0;
    while i < names.len()
        invariant
            i <= names@.len(),
            t == tree.deep_view(),
            out.deep_view() == dir_texts_upto(t, dir@, names.deep_view(), i as int),
        decreases names@.len() - i,
    {
        if let Some(c) = tree.read(join_path(dir, names[i].as_str()).as_str()) {
            if with_extension(names[i].as_str(), "rs") {
                add_item(&mut out, c);
            }
        }
        i = i + 1;
    }
    out
}

/// Some trait of the contract has the name, but for case.
pub open spec fn declares_trait(traits: Seq<(Seq<char>, Seq<Seq<char>>)>, name: Seq<char>) -> bool {
    exists|i: int| 0 <= i < traits.len() && same_but_case(#[trigger] traits[i].0, name)
}

/// An impl of the trait is one of the contract: by the trait's name, or by the
/// stem of the contract's file.
pub open spec fn serves(
    name: Seq<char>,
    stem: Seq<char>,
    traits: Seq<(Seq<char>, Seq<Seq<char>>)>,
) -> bool {
    same_but_case(name, stem) || declares_trait(traits, name)
}

fn is_served(name: &str, stem: &str, traits: &RustContract) -> (r: bool)
    ensures
        r == serves(name@, stem@, traits.deep_view()),
{
    if eq_ignore_ascii_case(name, stem) {
        return true;
    }
    let ghost all = traits.deep_view();
    let mut i: usize = 0;
    while i < traits.len()
        invariant
            i <= traits@.len(),
            all == traits.deep_view(),
            forall|j: int| 0 <= j < i ==> !same_but_case(#[trigger] all[j].0, name@),
        decreases traits@.len() - i,
    {
        assert(all[i as int] == (traits[i as int].0@, traits[i as int].1.deep_view()));
        if eq_ignore_ascii_case(traits[i].0.as_str(), name) {
            assert(same_but_case(all[i as int].0, name@));
            return true;
        }
        i = i + 1;
    }
    false
}

/// The methods of the first `n` rows.
pub open spec fn all_methods_upto(rows: Seq<(Seq<char>, Seq<Seq<char>>)>, n: int) -> Seq<Seq<char>>
    decreases n,
{
    if n <= 0 {
        Seq::empty()
    } else {
        all_methods_upto(rows, n - 1) + rows[n - 1].1
    }
}

/// The methods that the first `n` impls provide for a contract.
pub open spec fn served_methods_upto(
    rows: Seq<(Seq<char>, Seq<Seq<char>>)>,
    stem: Seq<char>,
    traits: Seq<(Seq<char>, Seq<Seq<char>>)>,
    n: int,
) -> Seq<Seq<char>>
    decreases n,
{
    if n <= 0 {
        Seq::empty()
    } else {
        let done = served_methods_upto(rows, stem, traits, n - 1);
        if serves(rows[n - 1].0, stem, traits) {
            done + rows[n - 1].1
        } else {
            done
        }
    }
}

/// Some impl is one of the contract.
pub open spec fn some_impl(
    rows: Seq<(Seq<char>, Seq<Seq<char>>)>,
    stem: Seq<char>,
    traits: Seq<(Seq<char>, Seq<Seq<char>>)>,
) -> bool {
    exists|i: int| 0 <= i < rows.len() && serves(#[trigger] rows[i].0, stem, traits)
}

/// Some placeholder is one of the contract.
pub open spec fn some_placeholder(
    names: Seq<Seq<char>>,
    stem: Seq<char>,
    traits: Seq<(Seq<char>, Seq<Seq<char>>)>,
) -> bool {
    exists|i: int| 0 <= i < names.len() && serves(#[trigger] names[i], stem, traits)
}

/// What a platform still owes of one contract. An impl with a placeholder body
/// is an impl, but no coverage.
pub open spec fn contract_coverage(
    stem: Seq<char>,
    traits: Seq<(Seq<char>, Seq<Seq<char>>)>,
    impls: Seq<(Seq<char>, Seq<Seq<char>>)>,
    placeholders: Seq<Seq<char>>,
) -> HalInterfaceCoverageView {
    let missing = absent(
        all_methods_upto(traits, traits.len() as int),
        served_methods_upto(impls, stem, traits, impls.len() as int),
    );
    let is_stub = some_placeholder(placeholders, stem, traits);
    HalInterfaceCoverageView {
        implemented: missing.len() == 0 && !is_stub,
        has_impl: some_impl(impls, stem, traits),
        is_stub,
        missing,
        missing_sigs: Seq::empty(),
        drifted: Seq::empty(),
    }
}

/// What a platform still owes of one contract.
pub fn cover_contract(
    stem: &str,
    traits: &RustContract,
    impls: &Vec<(String, Vec<String>)>,
    placeholders: &Vec<String>,
) -> (r: HalInterfaceCoverage)
    ensures
        r.deep_view() == contract_coverage(
            stem@,
            traits.deep_view(),
            impls.deep_view(),
            placeholders.deep_view(),
        ),
{
    let ghost all = traits.deep_view();
    let ghost rows = impls.deep_view();
    let ghost names = placeholders.deep_view();
    let mut required: Vec<String> = Vec::new();
    assert(required.deep_view() =~= Seq::empty());
    let mut i: usize = 0;
    while i < traits.len()
        invariant
            i <= traits@.len(),
            all == traits.deep_view(),
            required.deep_view() == all_methods_upto(all, i as int),
        decreases traits@.len() - i,
    {
        assert(all[i as int] == (traits[i as int].0@, traits[i as int].1.deep_view()));
        append_texts(&mut required, &traits[i].1);
        i = i + 1;
    }
    let mut provided: Vec<String> = Vec::new();
    assert(provided.deep_view() =~= Seq::empty());
    let mut has_impl = false;
    let mut i: usize = 0;
    while i < impls.len()
        invariant
            i <= impls@.len(),
            all == traits.deep_view(),
            rows == impls.deep_view(),
            provided.deep_view() == served_methods_upto(rows, stem@, all, i as int),
            has_impl == exists|j: int| 0 <= j < i && serves(#[trigger] rows[j].0, stem@, all),
        decreases impls@.len() - i,
    {
        assert(rows[i as int] == (impls[i as int].0@, impls[i as int].1.deep_view()));
        if is_served(impls[i].0.as_str(), stem, traits) {
            assert(serves(rows[i as int].0, stem@, all));
            append_texts(&mut provided, &impls[i].1);
            has_impl = true;
        }
        i = i + 1;
    }
    let mut is_stub = false;
    let mut i: usize = 0;
    while i < placeholders.len()
        invariant
            i <= placeholders@.len(),
            all == traits.deep_view(),
            names == placeholders.deep_view(),
            is_stub == exists|j: int| 0 <= j < i && serves(#[trigger] names[j], stem@, all),
        decreases placeholders@.len() - i,
    {
        if is_served(placeholders[i].as_str(), stem, traits) {
            assert(serves(names[i as int], stem@, all));
            is_stub = true;
        }
        i = i + 1;
    }
    let missing = list_absent(&required, &provided);
    let c = HalInterfaceCoverage {
        implemented: missing.len() == 0 && !is_stub,
        has_impl,
        is_stub,
        missing,
        missing_sigs: Vec::new(),
        drifted: Vec::new(),
    };
    assert(c.missing_sigs.deep_view() =~= Seq::empty());
    assert(c.drifted.deep_view() =~= Seq::empty());
    c
}

/// What a platform still owes of the first `n` contracts.
pub open spec fn platform_rows_upto(
    contracts: Seq<(Seq<char>, Seq<(Seq<char>, Seq<Seq<char>>)>)>,
    impls: Seq<(Seq<char>, Seq<Seq<char>>)>,
    placeholders: Seq<Seq<char>>,
    n: int,
) -> Seq<(Seq<char>, HalInterfaceCoverageView)>
    decreases n,
{
    if n <= 0 {
        Seq::empty()
    } else {
        with_value(
            platform_rows_upto(contracts, impls, placeholders, n - 1),
            contracts[n - 1].0,
            contract_coverage(contracts[n - 1].0, contracts[n - 1].1, impls, placeholders),
        )
    }
}

/// What a platform still owes: of each contract, and of its board where it has
/// one.
pub open spec fn platform_rows(
    t: ProjectTreeView,
    contracts: Seq<(Seq<char>, Seq<(Seq<char>, Seq<Seq<char>>)>)>,
    dir: Seq<char>,
) -> Seq<(Seq<char>, HalInterfaceCoverageView)> {
    let texts = dir_texts(t, dir);
    let rows = platform_rows_upto(
        contracts,
        provided_upto(texts, texts.len() as int),
        unwritten_upto(texts, texts.len() as int),
        contracts.len() as int,
    );
    match board_at(t, dir) {
        Some(board) => with_value(rows, BOARD_INTERFACE@, board),
        None => rows,
    }
}

fn cover_platform(tree: &ProjectTree, contracts: &Vec<(String, RustContract)>, dir: &str) -> (r: Vec<
    (String, HalInterfaceCoverage),
>)
    ensures
        r.deep_view() == platform_rows(tree.deep_view(), contracts.deep_view(), dir@),
{
    let ghost all = contracts.deep_view();
    let texts = read_dir_texts(tree, dir);
    let impls = all_provided(&texts);
    let placeholders = all_unwritten(&texts);
    let mut out: Vec<(String, HalInterfaceCoverage)> = Vec::new();
    assert(out.deep_view() =~= Seq::empty());
    let mut i: usize = 0;
    while i < contracts.len()
        invariant
            i <= contracts@.len(),
            all == contracts.deep_view(),
            out.deep_view() == platform_rows_upto(
                all,
                impls.deep_view(),
                placeholders.deep_view(),
                i as int,
            ),
        decreases contracts@.len() - i,
    {
        assert(all[i as int] == (contracts[i as int].0@, contracts[i as int].1.deep_view()));
        let c = cover_contract(contracts[i].0.as_str(), &contracts[i].1, &impls, &placeholders);
        put(&mut out, contracts[i].0.clone(), c);
        i = i + 1;
    }
    if let Some(board) = board_coverage(tree, dir) {
        put(&mut out, BOARD_INTERFACE.to_owned(), board);
    }
    out
}

/// What the first `n` platforms still owe.
pub open spec fn rust_coverage_upto(
    t: ProjectTreeView,
    contracts: Seq<(Seq<char>, Seq<(Seq<char>, Seq<Seq<char>>)>)>,
    platforms: Seq<(Seq<char>, Seq<char>)>,
    n: int,
) -> Seq<(Seq<char>, Seq<(Seq<char>, HalInterfaceCoverageView)>)>
    decreases n,
{
    if n <= 0 {
        Seq::empty()
    } else {
        with_value(
            rust_coverage_upto(t, contracts, platforms, n - 1),
            platforms[n - 1].0,
            platform_rows(t, contracts, platforms[n - 1].1),
        )
    }
}

/// The Rust coverage of a project; empty where it has neither a Rust contract
/// nor a backend crate.
pub open spec fn rust_coverage(t: ProjectTreeView) -> Seq<
    (Seq<char>, Seq<(Seq<char>, HalInterfaceCoverageView)>),
> {
    if rust_contracts(t).len() == 0 && crate_layout(t).1.len() == 0 {
        Seq::empty()
    } else {
        rust_coverage_upto(t, rust_contracts(t), rust_platforms(t), rust_platforms(t).len() as int)
    }
}

/// A copy of a contract.
fn copy_contract(c: &RustContract) -> (r: RustContract)
    ensures
        r.deep_view() == c.deep_view(),
{
    let mut out: RustContract = Vec::new();
    let mut i: usize = 0;
    while i < c.len()
        invariant
            i <= c@.len(),
            out.deep_view() == c.deep_view().take(i as int),
        decreases c@.len() - i,
    {
        add_item(&mut out, (c[i].0.clone(), copy_texts(&c[i].1)));
        assert(c.deep_view()[i as int] == (c[i as int].0@, c[i as int].1.deep_view()));
        assert(c.deep_view().take(i + 1) =~= c.deep_view().take(i as int).push(c.deep_view()[i as int]));
        i = i + 1;
    }
    assert(c.deep_view().take(c@.len() as int) =~= c.deep_view());
    out
}

/// The Rust coverage of a project: for each platform and each contract, and for
/// each backend's board. Contracts come from `hal/api`, `toolkit/src/hal/api`
/// and the contract crates.
pub fn rust_platform_coverage_map(tree: &ProjectTree) -> (r: Vec<
    (String, Vec<(String, HalInterfaceCoverage)>),
>)
    ensures
        r.deep_view() == rust_coverage(tree.deep_view()),
{
    let ghost t = tree.deep_view();
    let mut out: Vec<(String, Vec<(String, HalInterfaceCoverage)>)> = Vec::new();
    assert(out.deep_view() =~= Seq::empty());
    let mut contracts: Vec<(String, RustContract)> = Vec::new();
    assert(contracts.deep_view() =~= Seq::empty());
    add_contracts(tree, "hal/api", &mut contracts);
    add_contracts(tree, "toolkit/src/hal/api", &mut contracts);
    let ghost api = contracts.deep_view();
    let (more, backends) = embedded_hal_layout(tree);
    let ghost extra = more.deep_view();
    let mut i: usize = 0;
    while i < more.len()
        invariant
            i <= more@.len(),
            extra == more.deep_view(),
            contracts.deep_view() == extended_upto(api, extra, i as int),
        decreases more@.len() - i,
    {
        assert(extra[i as int] == (more[i as int].0@, more[i as int].1.deep_view()));
        put(&mut contracts, more[i].0.clone(), copy_contract(&more[i].1));
        i = i + 1;
    }
    if contracts.len() == 0 && backends.len() == 0 {
        return out;
    }
    let platforms = list_platforms(tree, &backends);
    let ghost all = platforms.deep_view();
    let mut i: usize = 0;
    while i < platforms.len()
        invariant
            i <= platforms@.len(),
            t == tree.deep_view(),
            all == platforms.deep_view(),
            out.deep_view() == rust_coverage_upto(t, contracts.deep_view(), all, i as int),
        decreases platforms@.len() - i,
    {
        assert(all[i as int] == (platforms[i as int].0@, platforms[i as int].1@));
        let rows = cover_platform(tree, &contracts, platforms[i].1.as_str());
        put(&mut out, platforms[i].0.clone(), rows);
        i = i + 1;
    }
    out
}

} // verus!
