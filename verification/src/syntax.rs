//! Concrete syntax trees as lists of nodes, and how they are walked.

use vstd::prelude::*;

use crate::text::{same, span, span_of};

verus! {

/// One node of a concrete syntax tree, in the order of a walk that meets a node
/// before its children.
#[derive(Debug, PartialEq, Eq)]
pub struct SyntaxNode {
    /// The grammar symbol.
    pub kind: String,
    /// The field under which its parent holds it; empty where there is none.
    pub field: String,
    /// The number of its ancestors.
    pub depth: usize,
    /// The byte at which it starts.
    pub start: usize,
    /// The byte behind its last one.
    pub end: usize,
    /// Whether the grammar names it.
    pub named: bool,
    /// Whether it stands for text that could not be parsed.
    pub error: bool,
    /// Whether the parser put it in to recover from an error.
    pub missing: bool,
    /// Whether it is or holds a syntax error.
    pub has_error: bool,
}

/// What a [`SyntaxNode`] holds.
#[verifier::ext_equal]
pub struct SyntaxNodeView {
    pub kind: Seq<char>,
    pub field: Seq<char>,
    pub depth: usize,
    pub start: usize,
    pub end: usize,
    pub named: bool,
    pub error: bool,
    pub missing: bool,
    pub has_error: bool,
}

impl DeepView for SyntaxNode {
    type V = SyntaxNodeView;

    open spec fn deep_view(&self) -> SyntaxNodeView {
        SyntaxNodeView {
            kind: self.kind@,
            field: self.field@,
            depth: self.depth,
            start: self.start,
            end: self.end,
            named: self.named,
            error: self.error,
            missing: self.missing,
            has_error: self.has_error,
        }
    }
}

impl Clone for SyntaxNode {
    fn clone(&self) -> (r: Self)
        ensures
            r.deep_view() == self.deep_view(),
    {
        SyntaxNode {
            kind: self.kind.clone(),
            field: self.field.clone(),
            depth: self.depth,
            start: self.start,
            end: self.end,
            named: self.named,
            error: self.error,
            missing: self.missing,
            has_error: self.has_error,
        }
    }
}

/// The nodes of the C++ syntax tree of a text; `None` where the parser yields
/// no tree.
pub uninterp spec fn cpp_syntax(source: Seq<char>) -> Option<Seq<SyntaxNodeView>>;

/// `tree_sitter::Parser::parse` with the grammar `tree_sitter_cpp::LANGUAGE`:
/// the tree's nodes, each before its children, with kind, field name, depth,
/// byte range and flags, a function of the text alone.
#[verifier::external_body]
pub(crate) fn parse_cpp(source: &str) -> (r: Option<Vec<SyntaxNode>>)
    ensures
        r.deep_view() == cpp_syntax(source@),
{
    let mut parser = tree_sitter::Parser::new();
    parser.set_language(&tree_sitter_cpp::LANGUAGE.into()).ok()?;
    let tree = parser.parse(source, None)?;
    let mut at = tree.walk();
    Some((0..tree.root_node().descendant_count()).map(|i| {
        at.goto_descendant(i);
        let n = at.node();
        let field = at.field_name().unwrap_or("").to_string();
        SyntaxNode { kind: n.kind().to_string(), field, depth: at.depth() as usize,
            start: n.start_byte(), end: n.end_byte(), named: n.is_named(),
            error: n.is_error(), missing: n.is_missing(), has_error: n.has_error() }
    }).collect())
}

/// The nodes of the Rust syntax tree of a text; `None` where the parser yields
/// no tree.
pub uninterp spec fn rust_syntax(source: Seq<char>) -> Option<Seq<SyntaxNodeView>>;

/// `tree_sitter::Parser::parse` with the grammar `tree_sitter_rust::LANGUAGE`:
/// the tree's nodes, each before its children, with kind, field name, depth,
/// byte range and flags, a function of the text alone.
#[verifier::external_body]
pub(crate) fn parse_rust(source: &str) -> (r: Option<Vec<SyntaxNode>>)
    ensures
        r.deep_view() == rust_syntax(source@),
{
    let mut parser = tree_sitter::Parser::new();
    parser.set_language(&tree_sitter_rust::LANGUAGE.into()).ok()?;
    let tree = parser.parse(source, None)?;
    let mut at = tree.walk();
    Some((0..tree.root_node().descendant_count()).map(|i| {
        at.goto_descendant(i);
        let n = at.node();
        let field = at.field_name().unwrap_or("").to_string();
        SyntaxNode { kind: n.kind().to_string(), field, depth: at.depth() as usize,
            start: n.start_byte(), end: n.end_byte(), named: n.is_named(),
            error: n.is_error(), missing: n.is_missing(), has_error: n.has_error() }
    }).collect())
}

// ---------------------------------------------------------------------------
// Walking
// ---------------------------------------------------------------------------

/// The first index from `k` on that does not lie below depth `d`.
pub open spec fn end_from(nodes: Seq<SyntaxNodeView>, d: usize, k: int) -> int
    decreases nodes.len() - k,
{
    if k < 0 || k >= nodes.len() {
        nodes.len() as int
    } else if nodes[k].depth <= d {
        k
    } else {
        end_from(nodes, d, k + 1)
    }
}

/// The index behind the last descendant of node `i`.
pub open spec fn end_of(nodes: Seq<SyntaxNodeView>, i: int) -> int {
    end_from(nodes, nodes[i].depth, i + 1)
}

pub proof fn end_from_bounds(nodes: Seq<SyntaxNodeView>, d: usize, k: int)
    requires
        0 <= k <= nodes.len(),
    ensures
        k <= end_from(nodes, d, k) <= nodes.len(),
    decreases nodes.len() - k,
{
    if k < nodes.len() && nodes[k].depth > d {
        end_from_bounds(nodes, d, k + 1);
    }
}

/// The index behind the last descendant of node `i`.
pub fn subtree_end(nodes: &Vec<SyntaxNode>, i: usize) -> (r: usize)
    requires
        i < nodes.len(),
    ensures
        r == end_of(nodes.deep_view(), i as int),
        i < r <= nodes@.len(),
{
    let d: usize = nodes[i].depth;
    let mut k: usize = i + 1;
    while k < nodes.len()
        invariant
            i < k <= nodes@.len(),
            d == nodes@[i as int].depth,
            end_from(nodes.deep_view(), d, i + 1) == end_from(nodes.deep_view(), d, k as int),
        decreases nodes@.len() - k,
    {
        if nodes[k].depth <= d {
            return k;
        }
        k = k + 1;
    }
    k
}

/// The named children of node `i` among the nodes from `k` on, in order.
pub open spec fn named_from(nodes: Seq<SyntaxNodeView>, i: int, k: int) -> Seq<int>
    decreases nodes.len() - k,
{
    if k < 0 || k >= nodes.len() || nodes[k].depth <= nodes[i].depth {
        Seq::empty()
    } else if nodes[k].depth == nodes[i].depth + 1 && nodes[k].named {
        seq![k] + named_from(nodes, i, k + 1)
    } else {
        named_from(nodes, i, k + 1)
    }
}

/// The named children of node `i`, in order.
pub open spec fn named_children(nodes: Seq<SyntaxNodeView>, i: int) -> Seq<int> {
    named_from(nodes, i, i + 1)
}

/// A list of indices as mathematical integers.
pub open spec fn indices(v: Seq<usize>) -> Seq<int> {
    Seq::new(v.len(), |i: int| v[i] as int)
}

/// The list holds indices of the nodes.
pub open spec fn in_range(v: Seq<usize>, n: int) -> bool {
    forall|j: int| 0 <= j < v.len() ==> #[trigger] v[j] < n
}

/// The named children of node `i`, in order.
pub fn children_of(nodes: &Vec<SyntaxNode>, i: usize) -> (r: Vec<usize>)
    requires
        i < nodes.len(),
    ensures
        indices(r@) == named_children(nodes.deep_view(), i as int),
        in_range(r@, nodes@.len() as int),
{
    let ghost all = nodes.deep_view();
    let d: usize = nodes[i].depth;
    let mut out: Vec<usize> = Vec::new();
    let mut k: usize = i + 1;
    assert(indices(out@) + named_children(all, i as int) =~= named_children(all, i as int));
    while k < nodes.len() && nodes[k].depth > d
        invariant
            i < k <= nodes@.len(),
            all == nodes.deep_view(),
            d == nodes@[i as int].depth,
            indices(out@) + named_from(all, i as int, k as int) == named_children(all, i as int),
            in_range(out@, nodes@.len() as int),
        decreases nodes@.len() - k,
    {
        if nodes[k].depth - d == 1 && nodes[k].named {
            let ghost done = indices(out@);
            let ghost rest = named_from(all, i as int, k + 1);
            out.push(k);
            assert(indices(out@) + rest =~= done + (seq![k as int] + rest));
        }
        k = k + 1;
    }
    assert(named_from(all, i as int, k as int) =~= Seq::empty());
    assert(indices(out@) + Seq::<int>::empty() =~= indices(out@));
    out
}

/// The first child of node `i` in the field, among the nodes from `k` on.
pub open spec fn field_from(
    nodes: Seq<SyntaxNodeView>,
    i: int,
    field: Seq<char>,
    k: int,
) -> Option<int>
    decreases nodes.len() - k,
{
    if k < 0 || k >= nodes.len() || nodes[k].depth <= nodes[i].depth {
        None
    } else if nodes[k].depth == nodes[i].depth + 1 && nodes[k].field == field {
        Some(k)
    } else {
        field_from(nodes, i, field, k + 1)
    }
}

/// The first child of node `i` in the field.
pub open spec fn field_child(nodes: Seq<SyntaxNodeView>, i: int, field: Seq<char>) -> Option<int> {
    field_from(nodes, i, field, i + 1)
}

/// The first child of node `i` in the field.
pub fn child_in_field(nodes: &Vec<SyntaxNode>, i: usize, field: &str) -> (r: Option<usize>)
    requires
        i < nodes.len(),
    ensures
        (match r {
            Some(k) => field_child(nodes.deep_view(), i as int, field@) == Some(k as int) && i < k
                && k < nodes@.len(),
            None => field_child(nodes.deep_view(), i as int, field@) is None,
        }),
{
    let d: usize = nodes[i].depth;
    let mut k: usize = i + 1;
    while k < nodes.len() && nodes[k].depth > d
        invariant
            i < k <= nodes@.len(),
            d == nodes@[i as int].depth,
            field_child(nodes.deep_view(), i as int, field@) == field_from(
                nodes.deep_view(),
                i as int,
                field@,
                k as int,
            ),
        decreases nodes@.len() - k,
    {
        if nodes[k].depth - d == 1 && same(nodes[k].field.as_str(), field) {
            return Some(k);
        }
        k = k + 1;
    }
    None
}

/// Whether a node has one of two kinds.
pub open spec fn is_kind(n: SyntaxNodeView, a: Seq<char>, b: Seq<char>) -> bool {
    n.kind == a || n.kind == b
}

/// A walk from the root that enters named children only goes into this node.
pub open spec fn entered(n: SyntaxNodeView) -> bool {
    n.named || n.depth == 0
}

/// Among the nodes from `i` on, the outermost ones of the two kinds that a walk
/// over named children reaches: below such a node the walk does not look.
pub open spec fn tops_from(nodes: Seq<SyntaxNodeView>, a: Seq<char>, b: Seq<char>, i: int) -> Seq<
    int,
>
    decreases nodes.len() - i,
{
    if i < 0 || i >= nodes.len() {
        Seq::empty()
    } else {
        proof {
            end_from_bounds(nodes, nodes[i].depth, i + 1);
        }
        let next = end_of(nodes, i);
        if !entered(nodes[i]) {
            tops_from(nodes, a, b, next)
        } else if is_kind(nodes[i], a, b) {
            seq![i] + tops_from(nodes, a, b, next)
        } else {
            tops_from(nodes, a, b, i + 1)
        }
    }
}

/// The outermost nodes of the two kinds, in order.
pub open spec fn tops(nodes: Seq<SyntaxNodeView>, a: Seq<char>, b: Seq<char>) -> Seq<int> {
    tops_from(nodes, a, b, 0)
}

/// The outermost nodes of the two kinds, in order.
pub fn outermost(nodes: &Vec<SyntaxNode>, a: &str, b: &str) -> (r: Vec<usize>)
    ensures
        indices(r@) == tops(nodes.deep_view(), a@, b@),
        in_range(r@, nodes@.len() as int),
{
    let ghost all = nodes.deep_view();
    let mut out: Vec<usize> = Vec::new();
    let mut i: usize = 0;
    assert(indices(out@) + tops(all, a@, b@) =~= tops(all, a@, b@));
    while i < nodes.len()
        invariant
            i <= nodes@.len(),
            all == nodes.deep_view(),
            indices(out@) + tops_from(all, a@, b@, i as int) == tops(all, a@, b@),
            in_range(out@, nodes@.len() as int),
        decreases nodes@.len() - i,
    {
        let next: usize = subtree_end(nodes, i);
        if !(nodes[i].named || nodes[i].depth == 0) {
            i = next;
        } else if same(nodes[i].kind.as_str(), a) || same(nodes[i].kind.as_str(), b) {
            let ghost done = indices(out@);
            let ghost rest = tops_from(all, a@, b@, next as int);
            out.push(i);
            assert(indices(out@) + rest =~= done + (seq![i as int] + rest));
            i = next;
        } else {
            i = i + 1;
        }
    }
    assert(indices(out@) + Seq::<int>::empty() =~= indices(out@));
    out
}

/// Among the nodes from `i` on, all of the kind that a walk over named children
/// reaches.
pub open spec fn alls_from(nodes: Seq<SyntaxNodeView>, kind: Seq<char>, i: int) -> Seq<int>
    decreases nodes.len() - i,
{
    if i < 0 || i >= nodes.len() {
        Seq::empty()
    } else {
        proof {
            end_from_bounds(nodes, nodes[i].depth, i + 1);
        }
        let next = end_of(nodes, i);
        if !entered(nodes[i]) {
            alls_from(nodes, kind, next)
        } else if nodes[i].kind == kind {
            seq![i] + alls_from(nodes, kind, i + 1)
        } else {
            alls_from(nodes, kind, i + 1)
        }
    }
}

/// All nodes of the kind, in order.
pub open spec fn alls(nodes: Seq<SyntaxNodeView>, kind: Seq<char>) -> Seq<int> {
    alls_from(nodes, kind, 0)
}

/// All nodes of the kind, in order.
pub fn all_of_kind(nodes: &Vec<SyntaxNode>, kind: &str) -> (r: Vec<usize>)
    ensures
        indices(r@) == alls(nodes.deep_view(), kind@),
        in_range(r@, nodes@.len() as int),
{
    let ghost all = nodes.deep_view();
    let mut out: Vec<usize> = Vec::new();
    let mut i: usize = 0;
    assert(indices(out@) + alls(all, kind@) =~= alls(all, kind@));
    while i < nodes.len()
        invariant
            i <= nodes@.len(),
            all == nodes.deep_view(),
            indices(out@) + alls_from(all, kind@, i as int) == alls(all, kind@),
            in_range(out@, nodes@.len() as int),
        decreases nodes@.len() - i,
    {
        let next: usize = subtree_end(nodes, i);
        if !(nodes[i].named || nodes[i].depth == 0) {
            i = next;
        } else if same(nodes[i].kind.as_str(), kind) {
            let ghost done = indices(out@);
            let ghost rest = alls_from(all, kind@, i + 1);
            out.push(i);
            assert(indices(out@) + rest =~= done + (seq![i as int] + rest));
            i = i + 1;
        } else {
            i = i + 1;
        }
    }
    assert(indices(out@) + Seq::<int>::empty() =~= indices(out@));
    out
}

/// Whether the parser failed at this node.
pub open spec fn faulty(n: SyntaxNodeView) -> bool {
    n.error || n.missing
}

/// Among the nodes from `i` on, the outermost faulty ones that a walk over named
/// children reaches.
pub open spec fn faults_from(nodes: Seq<SyntaxNodeView>, i: int) -> Seq<int>
    decreases nodes.len() - i,
{
    if i < 0 || i >= nodes.len() {
        Seq::empty()
    } else {
        proof {
            end_from_bounds(nodes, nodes[i].depth, i + 1);
        }
        let next = end_of(nodes, i);
        if !entered(nodes[i]) {
            faults_from(nodes, next)
        } else if faulty(nodes[i]) {
            seq![i] + faults_from(nodes, next)
        } else {
            faults_from(nodes, i + 1)
        }
    }
}

/// The outermost faulty nodes that a walk over named children reaches, in order.
pub fn fault_nodes(nodes: &Vec<SyntaxNode>) -> (r: Vec<usize>)
    ensures
        indices(r@) == faults_from(nodes.deep_view(), 0),
        in_range(r@, nodes@.len() as int),
{
    let ghost all = nodes.deep_view();
    let mut out: Vec<usize> = Vec::new();
    let mut i: usize = 0;
    assert(indices(out@) + faults_from(all, 0) =~= faults_from(all, 0));
    while i < nodes.len()
        invariant
            i <= nodes@.len(),
            all == nodes.deep_view(),
            indices(out@) + faults_from(all, i as int) == faults_from(all, 0),
            in_range(out@, nodes@.len() as int),
        decreases nodes@.len() - i,
    {
        let next: usize = subtree_end(nodes, i);
        if !(nodes[i].named || nodes[i].depth == 0) {
            i = next;
        } else if nodes[i].error || nodes[i].missing {
            let ghost done = indices(out@);
            let ghost rest = faults_from(all, next as int);
            out.push(i);
            assert(indices(out@) + rest =~= done + (seq![i as int] + rest));
            i = next;
        } else {
            i = i + 1;
        }
    }
    assert(indices(out@) + Seq::<int>::empty() =~= indices(out@));
    out
}

/// The source text of node `i`.
pub open spec fn node_text(source: Seq<char>, nodes: Seq<SyntaxNodeView>, i: int) -> Seq<char> {
    span(source, nodes[i].start as int, nodes[i].end as int)
}

/// The source text of node `i`.
pub fn text_of_node(source: &Vec<char>, nodes: &Vec<SyntaxNode>, i: usize) -> (r: String)
    requires
        i < nodes.len(),
    ensures
        r@ == node_text(source@, nodes.deep_view(), i as int),
{
    span_of(source, nodes[i].start, nodes[i].end)
}

} // verus!
