//! The HAL graph of a project and its queries.

use vstd::prelude::*;

use crate::coverage::{
    coverage_map, file_implements_stem, hal_platform_coverage_map, is_attributed, platform_dirs,
    platforms_of_project, HalInterfaceCoverage, HalInterfaceCoverageView,
};
use crate::cpp::{
    base_classes, contract_classes, copy_hal_contract_methods, derives_hal_module, derives_module,
    extract_contract_methods_cpp, extract_cpp_base_classes, HalContractMethod, HalContractMethodView,
};
use crate::docs::{doc_on, docs_of, find_doc, parse_hal_docs, HalDoc, HalDocView};
use crate::project::{
    file_stem, headers_in, join_path, names_in, stem_of, ProjectTree, ProjectTreeView,
};
use crate::table::{find_key, has_key, value_at};
use crate::text::{add_item, add_items, contains, has_text, list_has, lowercase, same, split, to_lowercase};

verus! {

/// A node of the HAL graph.
#[derive(Debug, PartialEq, Eq)]
pub struct HalGraphNode {
    pub id: String,
    /// `HalModule`, `HalContract`, `HalType`, `HalImpl` or `HalMethod`.
    pub kind: String,
    pub name: String,
    pub platform: String,
    pub doc: Option<HalDoc>,
}

/// What a [`HalGraphNode`] holds.
#[verifier::ext_equal]
pub struct HalGraphNodeView {
    pub id: Seq<char>,
    pub kind: Seq<char>,
    pub name: Seq<char>,
    pub platform: Seq<char>,
    pub doc: Option<HalDocView>,
}

impl DeepView for HalGraphNode {
    type V = HalGraphNodeView;

    open spec fn deep_view(&self) -> HalGraphNodeView {
        HalGraphNodeView {
            id: self.id@,
            kind: self.kind@,
            name: self.name@,
            platform: self.platform@,
            doc: self.doc.deep_view(),
        }
    }
}

impl Clone for HalGraphNode {
    fn clone(&self) -> (r: Self)
        ensures
            r.deep_view() == self.deep_view(),
    {
        HalGraphNode {
            id: self.id.clone(),
            kind: self.kind.clone(),
            name: self.name.clone(),
            platform: self.platform.clone(),
            doc: match &self.doc {
                Some(x) => Some(x.clone()),
                None => None,
            },
        }
    }
}

/// An edge of the HAL graph.
#[derive(Debug, PartialEq, Eq)]
pub struct HalGraphEdge {
    /// `derives`, `implements`, `missing` or `drifted`.
    pub kind: String,
    pub from: String,
    pub to: String,
}

/// What a [`HalGraphEdge`] holds.
#[verifier::ext_equal]
pub struct HalGraphEdgeView {
    pub kind: Seq<char>,
    pub from: Seq<char>,
    pub to: Seq<char>,
}

impl DeepView for HalGraphEdge {
    type V = HalGraphEdgeView;

    open spec fn deep_view(&self) -> HalGraphEdgeView {
        HalGraphEdgeView {
            kind: self.kind@,
            from: self.from@,
            to: self.to@,
        }
    }
}

impl Clone for HalGraphEdge {
    fn clone(&self) -> (r: Self)
        ensures
            r.deep_view() == self.deep_view(),
    {
        HalGraphEdge {
            kind: self.kind.clone(),
            from: self.from.clone(),
            to: self.to.clone(),
        }
    }
}

/// The HAL graph of a project.
#[derive(Debug, PartialEq, Eq)]
pub struct HalGraph {
    pub nodes: Vec<HalGraphNode>,
    pub edges: Vec<HalGraphEdge>,
}

/// What a [`HalGraph`] holds.
#[verifier::ext_equal]
pub struct HalGraphView {
    pub nodes: Seq<HalGraphNodeView>,
    pub edges: Seq<HalGraphEdgeView>,
}

impl DeepView for HalGraph {
    type V = HalGraphView;

    open spec fn deep_view(&self) -> HalGraphView {
        HalGraphView {
            nodes: self.nodes.deep_view(),
            edges: self.edges.deep_view(),
        }
    }
}

/// A node of the common part of the graph.
pub open spec fn common_node(
    id: Seq<char>,
    kind: Seq<char>,
    name: Seq<char>,
    doc: Option<HalDocView>,
) -> HalGraphNodeView {
    HalGraphNodeView { id, kind, name, platform: "common"@, doc }
}

/// The node of a contract class.
pub open spec fn contract_node(docs: Seq<HalDocView>, cname: Seq<char>) -> HalGraphNodeView {
    common_node("contract:"@ + cname, "HalContract"@, cname, doc_on(docs, cname))
}

/// The edge from a contract class to the module base.
pub open spec fn derives_edge(cname: Seq<char>) -> HalGraphEdgeView {
    HalGraphEdgeView {
        kind: "derives"@,
        from: "contract:"@ + cname,
        to: "module:hal::HalModule"@,
    }
}

/// The node of a contract method.
pub open spec fn method_node(
    docs: Seq<HalDocView>,
    cname: Seq<char>,
    m: HalContractMethodView,
) -> HalGraphNodeView {
    common_node(
        "method:"@ + cname + ":"@ + m.name,
        "HalMethod"@,
        m.name,
        doc_on(docs, m.name),
    )
}

/// The nodes of the first `n` methods.
pub open spec fn method_nodes(
    docs: Seq<HalDocView>,
    cname: Seq<char>,
    methods: Seq<HalContractMethodView>,
    n: int,
) -> Seq<HalGraphNodeView>
    decreases n,
{
    if n <= 0 {
        Seq::empty()
    } else {
        method_nodes(docs, cname, methods, n - 1).push(method_node(docs, cname, methods[n - 1]))
    }
}

/// The class is a contract: it derives the module base, or it has contract methods.
pub open spec fn is_contract_class(
    class: (Seq<char>, Seq<Seq<char>>),
    abstracts: Seq<(Seq<char>, Seq<HalContractMethodView>)>,
) -> bool {
    class.1.contains("HalModule"@) || has_key(abstracts, class.0)
}

/// The names of the contracts among the first `n` classes.
pub open spec fn contract_names_upto(
    classes: Seq<(Seq<char>, Seq<Seq<char>>)>,
    abstracts: Seq<(Seq<char>, Seq<HalContractMethodView>)>,
    n: int,
) -> Seq<Seq<char>>
    decreases n,
{
    if n <= 0 {
        Seq::empty()
    } else {
        let done = contract_names_upto(classes, abstracts, n - 1);
        if is_contract_class(classes[n - 1], abstracts) {
            done.push(classes[n - 1].0)
        } else {
            done
        }
    }
}

/// The names of the contracts that a header declares.
pub open spec fn contract_names(content: Seq<char>) -> Seq<Seq<char>> {
    let classes = base_classes(content);
    contract_names_upto(classes, contract_classes(content), classes.len() as int)
}

/// The contract methods of a class.
pub open spec fn methods_of(
    abstracts: Seq<(Seq<char>, Seq<HalContractMethodView>)>,
    cname: Seq<char>,
) -> Seq<HalContractMethodView> {
    match value_at(abstracts, cname) {
        Some(methods) => methods,
        None => Seq::empty(),
    }
}

/// The nodes and edges of the contracts among the first `n` classes: the class, its
/// edge to the module base where it derives it, and its contract methods.
pub open spec fn class_parts(
    docs: Seq<HalDocView>,
    classes: Seq<(Seq<char>, Seq<Seq<char>>)>,
    abstracts: Seq<(Seq<char>, Seq<HalContractMethodView>)>,
    n: int,
) -> (Seq<HalGraphNodeView>, Seq<HalGraphEdgeView>)
    decreases n,
{
    if n <= 0 {
        (Seq::empty(), Seq::empty())
    } else {
        let (nodes, edges) = class_parts(docs, classes, abstracts, n - 1);
        let (cname, bases) = classes[n - 1];
        if is_contract_class(classes[n - 1], abstracts) {
            let methods = methods_of(abstracts, cname);
            (
                nodes.push(contract_node(docs, cname)) + method_nodes(
                    docs,
                    cname,
                    methods,
                    methods.len() as int,
                ),
                if bases.contains("HalModule"@) {
                    edges.push(derives_edge(cname))
                } else {
                    edges
                },
            )
        } else {
            (nodes, edges)
        }
    }
}

/// The first comment of a header.
pub open spec fn first_doc(docs: Seq<HalDocView>) -> Option<HalDocView> {
    if docs.len() == 0 {
        None
    } else {
        Some(docs[0])
    }
}

/// The nodes and edges of one header: its contracts, or, where it has none, one
/// node for its data type.
pub open spec fn header_parts(header: (Seq<char>, Seq<char>)) -> (
    Seq<HalGraphNodeView>,
    Seq<HalGraphEdgeView>,
) {
    let docs = docs_of(header.1);
    let abstracts = contract_classes(header.1);
    if derives_module(header.1) || abstracts.len() > 0 {
        let classes = base_classes(header.1);
        class_parts(docs, classes, abstracts, classes.len() as int)
    } else {
        let stem = stem_of(header.0);
        (seq![common_node("type:"@ + stem, "HalType"@, stem, first_doc(docs))], Seq::empty())
    }
}

/// The nodes and edges of the first `n` headers.
pub open spec fn headers_parts(headers: Seq<(Seq<char>, Seq<char>)>, n: int) -> (
    Seq<HalGraphNodeView>,
    Seq<HalGraphEdgeView>,
)
    decreases n,
{
    if n <= 0 {
        (Seq::empty(), Seq::empty())
    } else {
        let (nodes, edges) = headers_parts(headers, n - 1);
        let (more_nodes, more_edges) = header_parts(headers[n - 1]);
        (nodes + more_nodes, edges + more_edges)
    }
}

/// The names of the contracts of an interface: those of the first header of its
/// stem, from `k` on, that declares contract methods.
pub open spec fn stem_contracts(headers: Seq<(Seq<char>, Seq<char>)>, stem: Seq<char>, k: int) -> Seq<
    Seq<char>,
>
    decreases headers.len() - k,
{
    if k < 0 || k >= headers.len() {
        Seq::empty()
    } else if stem_of(headers[k].0) == stem && contract_classes(headers[k].1).len() > 0 {
        contract_names(headers[k].1)
    } else {
        stem_contracts(headers, stem, k + 1)
    }
}

/// The headers that may declare contracts.
pub open spec fn contract_headers(t: ProjectTreeView) -> Seq<(Seq<char>, Seq<char>)> {
    headers_in(t, "hal/api"@) + headers_in(t, "toolkit/src/hal/api"@)
}

/// The node of an implementation file.
pub open spec fn impl_node(plat: Seq<char>, file: Seq<char>) -> HalGraphNodeView {
    HalGraphNodeView {
        id: "impl:"@ + plat + ":"@ + file,
        kind: "HalImpl"@,
        name: stem_of(file),
        platform: plat,
        doc: None,
    }
}

/// The file implements one of the interfaces.
pub open spec fn is_impl_file(
    t: ProjectTreeView,
    dir: Seq<char>,
    file: Seq<char>,
    ifaces: Seq<(Seq<char>, HalInterfaceCoverageView)>,
) -> bool {
    exists|j: int| 0 <= j < ifaces.len() && is_attributed(t, dir, file, (#[trigger] ifaces[j]).0)
}

/// The nodes of the implementation files among the first `n` files of a platform.
pub open spec fn file_nodes(
    t: ProjectTreeView,
    plat: (Seq<char>, Seq<char>),
    ifaces: Seq<(Seq<char>, HalInterfaceCoverageView)>,
    files: Seq<Seq<char>>,
    n: int,
) -> Seq<HalGraphNodeView>
    decreases n,
{
    if n <= 0 {
        Seq::empty()
    } else {
        let done = file_nodes(t, plat, ifaces, files, n - 1);
        if is_impl_file(t, plat.1, files[n - 1], ifaces) {
            done.push(impl_node(plat.0, files[n - 1]))
        } else {
            done
        }
    }
}

/// The edges from an implementation file to the first `n` contracts.
pub open spec fn implements_edges(plat: Seq<char>, file: Seq<char>, contracts: Seq<Seq<char>>, n: int) -> Seq<
    HalGraphEdgeView,
>
    decreases n,
{
    if n <= 0 {
        Seq::empty()
    } else {
        implements_edges(plat, file, contracts, n - 1).push(
            HalGraphEdgeView {
                kind: "implements"@,
                from: impl_node(plat, file).id,
                to: "contract:"@ + contracts[n - 1],
            },
        )
    }
}

/// The edges from the first `n` contracts to a platform.
pub open spec fn platform_edges(kind: Seq<char>, contracts: Seq<Seq<char>>, plat: Seq<char>, n: int) -> Seq<
    HalGraphEdgeView,
>
    decreases n,
{
    if n <= 0 {
        Seq::empty()
    } else {
        platform_edges(kind, contracts, plat, n - 1).push(
            HalGraphEdgeView {
                kind,
                from: "contract:"@ + contracts[n - 1],
                to: "platform:"@ + plat,
            },
        )
    }
}

/// The edges from those of the first `n` files that are attributed to an interface
/// to its contracts.
pub open spec fn file_edges(
    t: ProjectTreeView,
    plat: (Seq<char>, Seq<char>),
    stem: Seq<char>,
    contracts: Seq<Seq<char>>,
    files: Seq<Seq<char>>,
    n: int,
) -> Seq<HalGraphEdgeView>
    decreases n,
{
    if n <= 0 {
        Seq::empty()
    } else {
        let done = file_edges(t, plat, stem, contracts, files, n - 1);
        if is_attributed(t, plat.1, files[n - 1], stem) {
            done + implements_edges(plat.0, files[n - 1], contracts, contracts.len() as int)
        } else {
            done
        }
    }
}

/// The edges of one interface on a platform: its implementation files and whether
/// they are incomplete, or that there is none.
pub open spec fn iface_edges(
    t: ProjectTreeView,
    plat: (Seq<char>, Seq<char>),
    iface: (Seq<char>, HalInterfaceCoverageView),
    files: Seq<Seq<char>>,
) -> Seq<HalGraphEdgeView> {
    let contracts = stem_contracts(contract_headers(t), iface.0, 0);
    let n = contracts.len() as int;
    if !iface.1.has_impl {
        platform_edges("missing"@, contracts, plat.0, n)
    } else if iface.1.implemented {
        file_edges(t, plat, iface.0, contracts, files, files.len() as int)
    } else {
        file_edges(t, plat, iface.0, contracts, files, files.len() as int) + platform_edges(
            "drifted"@,
            contracts,
            plat.0,
            n,
        )
    }
}

/// The edges of the first `n` interfaces on a platform.
pub open spec fn ifaces_edges(
    t: ProjectTreeView,
    plat: (Seq<char>, Seq<char>),
    ifaces: Seq<(Seq<char>, HalInterfaceCoverageView)>,
    files: Seq<Seq<char>>,
    n: int,
) -> Seq<HalGraphEdgeView>
    decreases n,
{
    if n <= 0 {
        Seq::empty()
    } else {
        ifaces_edges(t, plat, ifaces, files, n - 1) + iface_edges(t, plat, ifaces[n - 1], files)
    }
}

/// The nodes and edges of the first `n` platforms, each a name and a directory.
pub open spec fn platforms_parts(
    t: ProjectTreeView,
    cov: Seq<(Seq<char>, Seq<(Seq<char>, HalInterfaceCoverageView)>)>,
    plats: Seq<(Seq<char>, Seq<char>)>,
    n: int,
) -> (Seq<HalGraphNodeView>, Seq<HalGraphEdgeView>)
    decreases n,
{
    if n <= 0 {
        (Seq::empty(), Seq::empty())
    } else {
        let (nodes, edges) = platforms_parts(t, cov, plats, n - 1);
        let plat = plats[n - 1];
        match value_at(cov, plat.0) {
            Some(ifaces) => {
                let files = names_in(t, plat.1);
                (
                    nodes + file_nodes(t, plat, ifaces, files, files.len() as int),
                    edges + ifaces_edges(t, plat, ifaces, files, ifaces.len() as int),
                )
            },
            None => (nodes, edges),
        }
    }
}

/// The headers that the graph reads.
pub open spec fn graph_headers(t: ProjectTreeView) -> Seq<(Seq<char>, Seq<char>)> {
    headers_in(t, "hal/api"@) + headers_in(t, "hal/types"@) + headers_in(t, "toolkit/src/hal/api"@)
}

/// The HAL graph of a project.
pub open spec fn graph_of(t: ProjectTreeView) -> HalGraphView {
    let headers = graph_headers(t);
    let (nodes, edges) = headers_parts(headers, headers.len() as int);
    let module = common_node("module:hal::HalModule"@, "HalModule"@, "hal::HalModule"@, None);
    let plats = platform_dirs(t);
    let (impl_nodes, impl_edges) = platforms_parts(t, coverage_map(t), plats, plats.len() as int);
    HalGraphView { nodes: nodes.push(module) + impl_nodes, edges: edges + impl_edges }
}

fn new_node(id: String, kind: &str, name: &str, platform: &str, doc: Option<HalDoc>) -> (r: HalGraphNode)
    ensures
        r.deep_view() == (HalGraphNodeView {
            id: id@,
            kind: kind@,
            name: name@,
            platform: platform@,
            doc: doc.deep_view(),
        }),
{
    HalGraphNode { id, kind: kind.to_owned(), name: name.to_owned(), platform: platform.to_owned(), doc }
}

fn new_edge(kind: &str, from: String, to: String) -> (r: HalGraphEdge)
    ensures
        r.deep_view() == (HalGraphEdgeView { kind: kind@, from: from@, to: to@ }),
{
    HalGraphEdge { kind: kind.to_owned(), from, to }
}

fn prefixed(prefix: &str, name: &str) -> (r: String)
    ensures
        r@ == prefix@ + name@,
{
    let mut s = prefix.to_owned();
    s.append(name);
    s
}

fn copy_doc_on(docs: &Vec<HalDoc>, target: &str) -> (r: Option<HalDoc>)
    ensures
        r.deep_view() == doc_on(docs.deep_view(), target@),
{
    match find_doc(docs, target) {
        Some(k) => Some(docs[k].clone()),
        None => None,
    }
}

fn nodes_of_methods(docs: &Vec<HalDoc>, cname: &str, methods: &Vec<HalContractMethod>) -> (r: Vec<
    HalGraphNode,
>)
    ensures
        r.deep_view() == method_nodes(
            docs.deep_view(),
            cname@,
            methods.deep_view(),
            methods@.len() as int,
        ),
{
    let mut out: Vec<HalGraphNode> = Vec::new();
    assert(out.deep_view() =~= Seq::empty());
    let mut i: usize = 0;
    while i < methods.len()
        invariant
            i <= methods@.len(),
            out.deep_view() == method_nodes(
                docs.deep_view(),
                cname@,
                methods.deep_view(),
                i as int,
            ),
        decreases methods@.len() - i,
    {
        let name = methods[i].name.as_str();
        let mut id = prefixed("method:", cname);
        id.append(":");
        id.append(name);
        let doc = copy_doc_on(docs, name);
        add_item(&mut out, new_node(id, "HalMethod", name, "common", doc));
        i = i + 1;
    }
    out
}

fn find_methods(abstracts: &Vec<(String, Vec<HalContractMethod>)>, cname: &str) -> (r: Vec<
    HalContractMethod,
>)
    ensures
        r.deep_view() == methods_of(abstracts.deep_view(), cname@),
{
    match find_key(abstracts, cname) {
        Some(k) => {
            assert(abstracts.deep_view()[k as int] == (
                abstracts[k as int].0@,
                abstracts[k as int].1.deep_view(),
            ));
            copy_hal_contract_methods(&abstracts[k].1)
        },
        None => {
            let none: Vec<HalContractMethod> = Vec::new();
            assert(none.deep_view() =~= Seq::empty());
            none
        },
    }
}

fn parts_of_header(name: &str, content: &str) -> (r: (Vec<HalGraphNode>, Vec<HalGraphEdge>))
    ensures
        (r.0.deep_view(), r.1.deep_view()) == header_parts((name@, content@)),
{
    let docs = parse_hal_docs(content);
    let mut nodes: Vec<HalGraphNode> = Vec::new();
    let mut edges: Vec<HalGraphEdge> = Vec::new();
    assert(nodes.deep_view() =~= Seq::empty());
    assert(edges.deep_view() =~= Seq::empty());
    let abstracts = extract_contract_methods_cpp(content);
    assert(abstracts.deep_view().len() == abstracts@.len());
    if derives_hal_module(content) || abstracts.len() > 0 {
        let classes = extract_cpp_base_classes(content);
        let ghost all = classes.deep_view();
        let mut i: usize = 0;
        while i < classes.len()
            invariant
                i <= classes@.len(),
                all == classes.deep_view(),
                (nodes.deep_view(), edges.deep_view()) == class_parts(
                    docs.deep_view(),
                    all,
                    abstracts.deep_view(),
                    i as int,
                ),
            decreases classes@.len() - i,
        {
            let cname = classes[i].0.as_str();
            assert(all[i as int] == (cname@, classes[i as int].1.deep_view()));
            let derives = list_has(&classes[i].1, "HalModule");
            if derives || find_key(&abstracts, cname).is_some() {
                let doc = copy_doc_on(&docs, cname);
                add_item(
                    &mut nodes,
                    new_node(prefixed("contract:", cname), "HalContract", cname, "common", doc),
                );
                if derives {
                    add_item(
                        &mut edges,
                        new_edge(
                            "derives",
                            prefixed("contract:", cname),
                            "module:hal::HalModule".to_owned(),
                        ),
                    );
                }
                let methods = find_methods(&abstracts, cname);
                add_items(&mut nodes, nodes_of_methods(&docs, cname, &methods));
            }
            i = i + 1;
        }
    } else {
        let stem = file_stem(name);
        let doc = if docs.len() == 0 {
            None
        } else {
            Some(docs[0].clone())
        };
        add_item(&mut nodes, new_node(prefixed("type:", stem), "HalType", stem, "common", doc));
        assert(nodes.deep_view() =~= header_parts((name@, content@)).0);
    }
    (nodes, edges)
}

/// The names of the contracts that a header declares.
pub fn list_contract_names(content: &str) -> (r: Vec<String>)
    ensures
        r.deep_view() == contract_names(content@),
{
    let abstracts = extract_contract_methods_cpp(content);
    let classes = extract_cpp_base_classes(content);
    let ghost all = classes.deep_view();
    let mut out: Vec<String> = Vec::new();
    assert(out.deep_view() =~= Seq::empty());
    let mut i: usize = 0;
    while i < classes.len()
        invariant
            i <= classes@.len(),
            all == classes.deep_view(),
            out.deep_view() == contract_names_upto(all, abstracts.deep_view(), i as int),
        decreases classes@.len() - i,
    {
        let cname = classes[i].0.as_str();
        assert(all[i as int] == (cname@, classes[i as int].1.deep_view()));
        if list_has(&classes[i].1, "HalModule") || find_key(&abstracts, cname).is_some() {
            add_item(&mut out, cname.to_owned());
        }
        i = i + 1;
    }
    out
}

fn find_contracts(headers: &Vec<(String, String)>, stem: &str) -> (r: Vec<String>)
    ensures
        r.deep_view() == stem_contracts(headers.deep_view(), stem@, 0),
{
    let ghost all = headers.deep_view();
    let mut k: usize = 0;
    while k < headers.len()
        invariant
            k <= headers@.len(),
            all == headers.deep_view(),
            stem_contracts(all, stem@, 0) == stem_contracts(all, stem@, k as int),
        decreases headers@.len() - k,
    {
        assert(all[k as int] == (headers[k as int].0@, headers[k as int].1@));
        if same(file_stem(headers[k].0.as_str()), stem) {
            let abstracts = extract_contract_methods_cpp(headers[k].1.as_str());
            assert(abstracts.deep_view().len() == abstracts@.len());
            if abstracts.len() > 0 {
                return list_contract_names(headers[k].1.as_str());
            }
        }
        k = k + 1;
    }
    let none: Vec<String> = Vec::new();
    assert(none.deep_view() =~= Seq::empty());
    none
}

fn attributes(tree: &ProjectTree, dir: &str, file: &str, stem: &str) -> (r: bool)
    ensures
        r == is_attributed(tree.deep_view(), dir@, file@, stem@),
{
    let parts = split(file, '.');
    assert(parts.deep_view()[0] == parts[0]@);
    file_implements_stem(parts[0].as_str(), stem) && tree.is_file(join_path(dir, file).as_str())
}

fn impl_id(plat: &str, file: &str) -> (r: String)
    ensures
        r@ == impl_node(plat@, file@).id,
{
    let mut id = prefixed("impl:", plat);
    id.append(":");
    id.append(file);
    id
}

fn implements_some(
    tree: &ProjectTree,
    dir: &str,
    file: &str,
    ifaces: &Vec<(String, HalInterfaceCoverage)>,
) -> (r: bool)
    ensures
        r == is_impl_file(tree.deep_view(), dir@, file@, ifaces.deep_view()),
{
    let ghost t = tree.deep_view();
    let ghost all = ifaces.deep_view();
    let mut j: usize = 0;
    while j < ifaces.len()
        invariant
            j <= ifaces@.len(),
            t == tree.deep_view(),
            all == ifaces.deep_view(),
            forall|i: int| 0 <= i < j ==> !is_attributed(t, dir@, file@, (#[trigger] all[i]).0),
        decreases ifaces@.len() - j,
    {
        assert(all[j as int] == (ifaces[j as int].0@, ifaces[j as int].1.deep_view()));
        if attributes(tree, dir, file, ifaces[j].0.as_str()) {
            assert(is_attributed(t, dir@, file@, all[j as int].0));
            return true;
        }
        j = j + 1;
    }
    false
}

fn nodes_of_files(
    tree: &ProjectTree,
    plat: &(String, String),
    ifaces: &Vec<(String, HalInterfaceCoverage)>,
    files: &Vec<String>,
) -> (r: Vec<HalGraphNode>)
    ensures
        r.deep_view() == file_nodes(
            tree.deep_view(),
            (plat.0@, plat.1@),
            ifaces.deep_view(),
            files.deep_view(),
            files@.len() as int,
        ),
{
    let ghost t = tree.deep_view();
    let ghost all = files.deep_view();
    let mut out: Vec<HalGraphNode> = Vec::new();
    assert(out.deep_view() =~= Seq::empty());
    let mut i: usize = 0;
    while i < files.len()
        invariant
            i <= files@.len(),
            t == tree.deep_view(),
            all == files.deep_view(),
            out.deep_view() == file_nodes(
                t,
                (plat.0@, plat.1@),
                ifaces.deep_view(),
                all,
                i as int,
            ),
        decreases files@.len() - i,
    {
        let file = files[i].as_str();
        assert(all[i as int] == file@);
        if implements_some(tree, plat.1.as_str(), file, ifaces) {
            let id = impl_id(plat.0.as_str(), file);
            add_item(&mut out, new_node(id, "HalImpl", file_stem(file), plat.0.as_str(), None));
        }
        i = i + 1;
    }
    out
}

fn add_implements(edges: &mut Vec<HalGraphEdge>, plat: &str, file: &str, contracts: &Vec<String>)
    ensures
        final(edges).deep_view() == old(edges).deep_view() + implements_edges(
            plat@,
            file@,
            contracts.deep_view(),
            contracts@.len() as int,
        ),
{
    let ghost start = edges.deep_view();
    let ghost all = contracts.deep_view();
    let mut i: usize = 0;
    assert(edges.deep_view() =~= start + implements_edges(plat@, file@, all, 0));
    while i < contracts.len()
        invariant
            i <= contracts@.len(),
            all == contracts.deep_view(),
            edges.deep_view() == start + implements_edges(plat@, file@, all, i as int),
        decreases contracts@.len() - i,
    {
        let to = prefixed("contract:", contracts[i].as_str());
        add_item(edges, new_edge("implements", impl_id(plat, file), to));
        assert(edges.deep_view() =~= start + implements_edges(plat@, file@, all, i + 1));
        i = i + 1;
    }
}

fn add_platform_edges(edges: &mut Vec<HalGraphEdge>, kind: &str, contracts: &Vec<String>, plat: &str)
    ensures
        final(edges).deep_view() == old(edges).deep_view() + platform_edges(
            kind@,
            contracts.deep_view(),
            plat@,
            contracts@.len() as int,
        ),
{
    let ghost start = edges.deep_view();
    let ghost all = contracts.deep_view();
    let mut i: usize = 0;
    assert(edges.deep_view() =~= start + platform_edges(kind@, all, plat@, 0));
    while i < contracts.len()
        invariant
            i <= contracts@.len(),
            all == contracts.deep_view(),
            edges.deep_view() == start + platform_edges(kind@, all, plat@, i as int),
        decreases contracts@.len() - i,
    {
        let from = prefixed("contract:", contracts[i].as_str());
        add_item(edges, new_edge(kind, from, prefixed("platform:", plat)));
        assert(edges.deep_view() =~= start + platform_edges(kind@, all, plat@, i + 1));
        i = i + 1;
    }
}

fn edges_of_iface(
    tree: &ProjectTree,
    headers: &Vec<(String, String)>,
    plat: &(String, String),
    iface: &(String, HalInterfaceCoverage),
    files: &Vec<String>,
) -> (r: Vec<HalGraphEdge>)
    requires
        headers.deep_view() == contract_headers(tree.deep_view()),
    ensures
        r.deep_view() == iface_edges(
            tree.deep_view(),
            (plat.0@, plat.1@),
            (iface.0@, iface.1.deep_view()),
            files.deep_view(),
        ),
{
    let ghost t = tree.deep_view();
    let ghost at = (plat.0@, plat.1@);
    let ghost all = files.deep_view();
    let contracts = find_contracts(headers, iface.0.as_str());
    let mut edges: Vec<HalGraphEdge> = Vec::new();
    assert(edges.deep_view() =~= Seq::empty());
    if !iface.1.has_impl {
        add_platform_edges(&mut edges, "missing", &contracts, plat.0.as_str());
        assert(edges.deep_view() =~= platform_edges(
            "missing"@,
            contracts.deep_view(),
            plat.0@,
            contracts@.len() as int,
        ));
        return edges;
    }
    let mut i: usize = 0;
    while i < files.len()
        invariant
            i <= files@.len(),
            t == tree.deep_view(),
            at == (plat.0@, plat.1@),
            all == files.deep_view(),
            edges.deep_view() == file_edges(
                t,
                at,
                iface.0@,
                contracts.deep_view(),
                all,
                i as int,
            ),
        decreases files@.len() - i,
    {
        let file = files[i].as_str();
        assert(all[i as int] == file@);
        if attributes(tree, plat.1.as_str(), file, iface.0.as_str()) {
            add_implements(&mut edges, plat.0.as_str(), file, &contracts);
        }
        i = i + 1;
    }
    if !iface.1.implemented {
        add_platform_edges(&mut edges, "drifted", &contracts, plat.0.as_str());
    }
    edges
}

fn edges_of_ifaces(
    tree: &ProjectTree,
    headers: &Vec<(String, String)>,
    plat: &(String, String),
    ifaces: &Vec<(String, HalInterfaceCoverage)>,
    files: &Vec<String>,
) -> (r: Vec<HalGraphEdge>)
    requires
        headers.deep_view() == contract_headers(tree.deep_view()),
    ensures
        r.deep_view() == ifaces_edges(
            tree.deep_view(),
            (plat.0@, plat.1@),
            ifaces.deep_view(),
            files.deep_view(),
            ifaces@.len() as int,
        ),
{
    let ghost t = tree.deep_view();
    let ghost all = ifaces.deep_view();
    let mut edges: Vec<HalGraphEdge> = Vec::new();
    assert(edges.deep_view() =~= Seq::empty());
    let mut i: usize = 0;
    while i < ifaces.len()
        invariant
            i <= ifaces@.len(),
            t == tree.deep_view(),
            headers.deep_view() == contract_headers(t),
            all == ifaces.deep_view(),
            edges.deep_view() == ifaces_edges(
                t,
                (plat.0@, plat.1@),
                all,
                files.deep_view(),
                i as int,
            ),
        decreases ifaces@.len() - i,
    {
        assert(all[i as int] == (ifaces[i as int].0@, ifaces[i as int].1.deep_view()));
        add_items(&mut edges, edges_of_iface(tree, headers, plat, &ifaces[i], files));
        i = i + 1;
    }
    edges
}

/// Builds the HAL graph of a project: contracts, data types and methods from
/// its headers, implementations and what they lack from its coverage.
pub fn hal_graph(tree: &ProjectTree) -> (r: HalGraph)
    ensures
        r.deep_view() == graph_of(tree.deep_view()),
{
    let ghost t = tree.deep_view();
    let mut headers = tree.headers("hal/api");
    add_items(&mut headers, tree.headers("hal/types"));
    add_items(&mut headers, tree.headers("toolkit/src/hal/api"));
    let ghost list = headers.deep_view();
    let mut nodes: Vec<HalGraphNode> = Vec::new();
    let mut edges: Vec<HalGraphEdge> = Vec::new();
    assert(nodes.deep_view() =~= Seq::empty());
    assert(edges.deep_view() =~= Seq::empty());
    let mut i: usize = 0;
    while i < headers.len()
        invariant
            i <= headers@.len(),
            list == headers.deep_view(),
            (nodes.deep_view(), edges.deep_view()) == headers_parts(list, i as int),
        decreases headers@.len() - i,
    {
        let (more_nodes, more_edges) = parts_of_header(
            headers[i].0.as_str(),
            headers[i].1.as_str(),
        );
        assert(list[i as int] == (headers[i as int].0@, headers[i as int].1@));
        add_items(&mut nodes, more_nodes);
        add_items(&mut edges, more_edges);
        i = i + 1;
    }
    add_item(
        &mut nodes,
        new_node(
            "module:hal::HalModule".to_owned(),
            "HalModule",
            "hal::HalModule",
            "common",
            None,
        ),
    );
    let cov = hal_platform_coverage_map(tree);
    let mut declaring = tree.headers("hal/api");
    add_items(&mut declaring, tree.headers("toolkit/src/hal/api"));
    let plats = platforms_of_project(tree);
    let ghost places = plats.deep_view();
    let mut impl_nodes: Vec<HalGraphNode> = Vec::new();
    let mut impl_edges: Vec<HalGraphEdge> = Vec::new();
    assert(impl_nodes.deep_view() =~= Seq::empty());
    assert(impl_edges.deep_view() =~= Seq::empty());
    let mut k: usize = 0;
    while k < plats.len()
        invariant
            k <= plats@.len(),
            t == tree.deep_view(),
            declaring.deep_view() == contract_headers(t),
            places == plats.deep_view(),
            (impl_nodes.deep_view(), impl_edges.deep_view()) == platforms_parts(
                t,
                cov.deep_view(),
                places,
                k as int,
            ),
        decreases plats@.len() - k,
    {
        assert(places[k as int] == (plats[k as int].0@, plats[k as int].1@));
        match find_key(&cov, plats[k].0.as_str()) {
            Some(at) => {
                let files = tree.list(plats[k].1.as_str());
                assert(cov.deep_view()[at as int].1 == cov[at as int].1.deep_view());
                add_items(&mut impl_nodes, nodes_of_files(tree, &plats[k], &cov[at].1, &files));
                add_items(
                    &mut impl_edges,
                    edges_of_ifaces(tree, &declaring, &plats[k], &cov[at].1, &files),
                );
            },
            None => {},
        }
        k = k + 1;
    }
    add_items(&mut nodes, impl_nodes);
    add_items(&mut edges, impl_edges);
    HalGraph { nodes, edges }
}

// ---------------------------------------------------------------------------
// Queries
// ---------------------------------------------------------------------------

/// The node answers the lower case query: by kind, name or platform.
pub open spec fn node_matches(n: HalGraphNodeView, q: Seq<char>) -> bool {
    q.len() == 0 || has_text(lowercase(n.kind), q) || has_text(lowercase(n.name), q) || has_text(
        lowercase(n.platform),
        q,
    )
}

/// The nodes among the first `n` that answer the query.
pub open spec fn matching_nodes(nodes: Seq<HalGraphNodeView>, q: Seq<char>, n: int) -> Seq<
    HalGraphNodeView,
>
    decreases n,
{
    if n <= 0 {
        Seq::empty()
    } else {
        let done = matching_nodes(nodes, q, n - 1);
        if node_matches(nodes[n - 1], q) {
            done.push(nodes[n - 1])
        } else {
            done
        }
    }
}

/// The ids of nodes.
pub open spec fn node_ids(nodes: Seq<HalGraphNodeView>) -> Seq<Seq<char>> {
    Seq::new(nodes.len(), |i: int| nodes[i].id)
}

/// The edges among the first `n` that touch one of the ids.
pub open spec fn touching_edges(edges: Seq<HalGraphEdgeView>, ids: Seq<Seq<char>>, n: int) -> Seq<
    HalGraphEdgeView,
>
    decreases n,
{
    if n <= 0 {
        Seq::empty()
    } else {
        let done = touching_edges(edges, ids, n - 1);
        if ids.contains(edges[n - 1].from) || ids.contains(edges[n - 1].to) {
            done.push(edges[n - 1])
        } else {
            done
        }
    }
}

/// The nodes that answer a query and the edges that touch them.
pub open spec fn query_result(g: HalGraphView, query: Seq<char>) -> (
    Seq<HalGraphNodeView>,
    Seq<HalGraphEdgeView>,
) {
    let nodes = matching_nodes(g.nodes, lowercase(query), g.nodes.len() as int);
    (nodes, touching_edges(g.edges, node_ids(nodes), g.edges.len() as int))
}

/// Filters a graph: the nodes whose kind, name or platform holds the query,
/// letter case aside, and the edges that touch one of them.
pub fn hal_query(graph: &HalGraph, query: &str) -> (r: (Vec<HalGraphNode>, Vec<HalGraphEdge>))
    ensures
        (r.0.deep_view(), r.1.deep_view()) == query_result(graph.deep_view(), query@),
{
    let q = to_lowercase(query);
    let ghost all_nodes = graph.nodes.deep_view();
    let ghost all_edges = graph.edges.deep_view();
    let mut nodes: Vec<HalGraphNode> = Vec::new();
    let mut ids: Vec<String> = Vec::new();
    assert(nodes.deep_view() =~= Seq::empty());
    assert(ids.deep_view() =~= node_ids(nodes.deep_view()));
    let mut i: usize = 0;
    while i < graph.nodes.len()
        invariant
            i <= graph.nodes@.len(),
            all_nodes == graph.nodes.deep_view(),
            q@ == lowercase(query@),
            nodes.deep_view() == matching_nodes(all_nodes, q@, i as int),
            ids.deep_view() == node_ids(nodes.deep_view()),
        decreases graph.nodes@.len() - i,
    {
        let n = &graph.nodes[i];
        let hit = q.as_str().unicode_len() == 0 || contains(
            to_lowercase(n.kind.as_str()).as_str(),
            q.as_str(),
        ) || contains(to_lowercase(n.name.as_str()).as_str(), q.as_str()) || contains(
            to_lowercase(n.platform.as_str()).as_str(),
            q.as_str(),
        );
        if hit {
            add_item(&mut ids, n.id.clone());
            add_item(&mut nodes, n.clone());
            assert(ids.deep_view() =~= node_ids(nodes.deep_view()));
        }
        i = i + 1;
    }
    let mut edges: Vec<HalGraphEdge> = Vec::new();
    assert(edges.deep_view() =~= Seq::empty());
    let mut k: usize = 0;
    while k < graph.edges.len()
        invariant
            k <= graph.edges@.len(),
            all_edges == graph.edges.deep_view(),
            edges.deep_view() == touching_edges(all_edges, ids.deep_view(), k as int),
        decreases graph.edges@.len() - k,
    {
        let e = &graph.edges[k];
        if list_has(&ids, e.from.as_str()) || list_has(&ids, e.to.as_str()) {
            add_item(&mut edges, e.clone());
        }
        k = k + 1;
    }
    (nodes, edges)
}

} // verus!
