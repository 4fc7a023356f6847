//! What holds of the HAL graph: its edges join nodes that it has.

use vstd::prelude::*;

use crate::coverage::{coverage_map, is_attributed, platform_dirs, HalInterfaceCoverageView};
use crate::cpp::{base_classes, contract_classes, HalContractMethodView};
use crate::docs::{docs_of, HalDocView};
use crate::graph::{
    class_parts, common_node, contract_headers, contract_names, contract_names_upto, contract_node,
    derives_edge, file_edges, file_nodes, graph_headers, graph_of, header_parts, headers_parts, iface_edges,
    ifaces_edges, impl_node, implements_edges, is_contract_class, is_impl_file, method_nodes, methods_of,
    platform_edges, platforms_parts, stem_contracts, HalGraphEdgeView, HalGraphNodeView,
};
use crate::project::{headers_in, names_in, stem_of, ProjectTreeView};
use crate::table::value_at;

verus! {

/// There is a node of the kind with that identity.
pub open spec fn has_node(nodes: Seq<HalGraphNodeView>, id: Seq<char>, kind: Seq<char>) -> bool {
    exists|i: int| 0 <= i < nodes.len() && (#[trigger] nodes[i]).id == id && nodes[i].kind == kind
}

/// The edge joins what its kind says: a contract and the module base, an
/// implementation file and its contract, or a contract and a platform.
pub open spec fn joins(nodes: Seq<HalGraphNodeView>, e: HalGraphEdgeView) -> bool {
    if e.kind == "derives"@ {
        has_node(nodes, e.from, "HalContract"@) && has_node(nodes, e.to, "HalModule"@)
    } else if e.kind == "implements"@ {
        has_node(nodes, e.from, "HalImpl"@) && has_node(nodes, e.to, "HalContract"@)
    } else {
        (e.kind == "missing"@ || e.kind == "drifted"@) && has_node(nodes, e.from, "HalContract"@)
    }
}

proof fn node_within(
    a: Seq<HalGraphNodeView>,
    b: Seq<HalGraphNodeView>,
    c: Seq<HalGraphNodeView>,
    id: Seq<char>,
    kind: Seq<char>,
)
    requires
        has_node(b, id, kind),
    ensures
        has_node(a + b + c, id, kind),
{
    let i = choose|i: int| 0 <= i < b.len() && (#[trigger] b[i]).id == id && b[i].kind == kind;
    assert((a + b + c)[a.len() + i] == b[i]);
}

proof fn node_stays(a: Seq<HalGraphNodeView>, b: Seq<HalGraphNodeView>, id: Seq<char>, kind: Seq<char>)
    requires
        has_node(a, id, kind) || has_node(b, id, kind),
    ensures
        has_node(a + b, id, kind),
{
    if has_node(a, id, kind) {
        let i = choose|i: int| 0 <= i < a.len() && (#[trigger] a[i]).id == id && a[i].kind == kind;
        assert((a + b)[i] == a[i]);
    } else {
        let i = choose|i: int| 0 <= i < b.len() && (#[trigger] b[i]).id == id && b[i].kind == kind;
        assert((a + b)[a.len() + i] == b[i]);
    }
}

proof fn contract_has_node(
    docs: Seq<HalDocView>,
    classes: Seq<(Seq<char>, Seq<Seq<char>>)>,
    abstracts: Seq<(Seq<char>, Seq<HalContractMethodView>)>,
    n: int,
    k: int,
)
    requires
        0 <= k < n <= classes.len(),
        is_contract_class(classes[k], abstracts),
    ensures
        has_node(class_parts(docs, classes, abstracts, n).0, "contract:"@ + classes[k].0, "HalContract"@),
    decreases n,
{
    let (nodes, edges) = class_parts(docs, classes, abstracts, n - 1);
    let all = class_parts(docs, classes, abstracts, n).0;
    if is_contract_class(classes[n - 1], abstracts) {
        let cname = classes[n - 1].0;
        let node = contract_node(docs, cname);
        let methods = methods_of(abstracts, cname);
        let rest = method_nodes(docs, cname, methods, methods.len() as int);
        assert(all == nodes.push(node) + rest);
        if k == n - 1 {
            assert(all[nodes.len() as int] == node);
        } else {
            contract_has_node(docs, classes, abstracts, n - 1, k);
            node_stays(nodes, seq![node] + rest, "contract:"@ + classes[k].0, "HalContract"@);
            assert(nodes + (seq![node] + rest) =~= all);
        }
    } else {
        contract_has_node(docs, classes, abstracts, n - 1, k);
    }
}

proof fn derives_edges_start(
    docs: Seq<HalDocView>,
    classes: Seq<(Seq<char>, Seq<Seq<char>>)>,
    abstracts: Seq<(Seq<char>, Seq<HalContractMethodView>)>,
    n: int,
    j: int,
)
    requires
        0 <= n <= classes.len(),
        0 <= j < class_parts(docs, classes, abstracts, n).1.len(),
    ensures
        exists|k: int|
            0 <= k < n && is_contract_class(#[trigger] classes[k], abstracts) && class_parts(
                docs,
                classes,
                abstracts,
                n,
            ).1[j] == derives_edge(classes[k].0),
    decreases n,
{
    if n > 0 {
        let edges = class_parts(docs, classes, abstracts, n - 1).1;
        let all = class_parts(docs, classes, abstracts, n).1;
        if j < edges.len() {
            derives_edges_start(docs, classes, abstracts, n - 1, j);
            let k = choose|k: int|
                0 <= k < n - 1 && is_contract_class(#[trigger] classes[k], abstracts) && edges[j]
                    == derives_edge(classes[k].0);
            assert(all[j] == edges[j]);
            assert(is_contract_class(classes[k], abstracts));
        } else {
            assert(is_contract_class(classes[n - 1], abstracts));
            assert(all[j] == derives_edge(classes[n - 1].0));
        }
    }
}

/// The nodes of a header are among those of all.
proof fn header_nodes_stay(
    headers: Seq<(Seq<char>, Seq<char>)>,
    n: int,
    k: int,
    id: Seq<char>,
    kind: Seq<char>,
)
    requires
        0 <= k < n <= headers.len(),
        has_node(header_parts(headers[k]).0, id, kind),
    ensures
        has_node(headers_parts(headers, n).0, id, kind),
    decreases n,
{
    if k < n - 1 {
        header_nodes_stay(headers, n - 1, k, id, kind);
    }
    node_stays(headers_parts(headers, n - 1).0, header_parts(headers[n - 1]).0, id, kind);
}

/// An edge of the headers goes from a contract's node to the module base.
proof fn header_edges_join(headers: Seq<(Seq<char>, Seq<char>)>, n: int, j: int)
    requires
        0 <= n <= headers.len(),
        0 <= j < headers_parts(headers, n).1.len(),
    ensures
        ({
            let e = headers_parts(headers, n).1[j];
            &&& e.kind == "derives"@
            &&& e.to == "module:hal::HalModule"@
            &&& has_node(headers_parts(headers, n).0, e.from, "HalContract"@)
        }),
    decreases n,
{
    if n > 0 {
        let (nodes, edges) = headers_parts(headers, n - 1);
        let h = headers[n - 1];
        let (more_nodes, more_edges) = header_parts(h);
        let e = headers_parts(headers, n).1[j];
        if j < edges.len() {
            header_edges_join(headers, n - 1, j);
            assert(e == edges[j]);
            node_stays(nodes, more_nodes, e.from, "HalContract"@);
        } else {
            let i = j - edges.len();
            assert(e == more_edges[i]);
            let docs = docs_of(h.1);
            let classes = base_classes(h.1);
            let abstracts = contract_classes(h.1);
            let m = classes.len() as int;
            derives_edges_start(docs, classes, abstracts, m, i);
            let k = choose|k: int|
                0 <= k < m && is_contract_class(#[trigger] classes[k], abstracts) && more_edges[i]
                    == derives_edge(classes[k].0);
            contract_has_node(docs, classes, abstracts, m, k);
            node_stays(nodes, more_nodes, e.from, "HalContract"@);
        }
    }
}

proof fn name_is_of_class(
    classes: Seq<(Seq<char>, Seq<Seq<char>>)>,
    abstracts: Seq<(Seq<char>, Seq<HalContractMethodView>)>,
    n: int,
    j: int,
)
    requires
        0 <= n <= classes.len(),
        0 <= j < contract_names_upto(classes, abstracts, n).len(),
    ensures
        exists|k: int|
            0 <= k < n && is_contract_class(#[trigger] classes[k], abstracts) && classes[k].0
                == contract_names_upto(classes, abstracts, n)[j],
    decreases n,
{
    if n > 0 {
        let done = contract_names_upto(classes, abstracts, n - 1);
        if j < done.len() {
            name_is_of_class(classes, abstracts, n - 1, j);
            let k = choose|k: int|
                0 <= k < n - 1 && is_contract_class(#[trigger] classes[k], abstracts) && classes[k].0
                    == done[j];
            assert(is_contract_class(classes[k], abstracts));
        } else {
            assert(is_contract_class(classes[n - 1], abstracts));
        }
    }
}

/// A contract of an interface has its node.
proof fn interface_contract_has_node(
    headers: Seq<(Seq<char>, Seq<char>)>,
    all: Seq<(Seq<char>, Seq<char>)>,
    stem: Seq<char>,
    k: int,
    j: int,
)
    requires
        forall|i: int| 0 <= i < headers.len() ==> all.contains(#[trigger] headers[i]),
        0 <= j < stem_contracts(headers, stem, k).len(),
    ensures
        has_node(
            headers_parts(all, all.len() as int).0,
            "contract:"@ + stem_contracts(headers, stem, k)[j],
            "HalContract"@,
        ),
    decreases headers.len() - k,
{
    if 0 <= k < headers.len() {
        let h = headers[k];
        if stem_of(h.0) == stem && contract_classes(h.1).len() > 0 {
            let classes = base_classes(h.1);
            let abstracts = contract_classes(h.1);
            let m = classes.len() as int;
            name_is_of_class(classes, abstracts, m, j);
            let c = choose|c: int|
                0 <= c < m && is_contract_class(#[trigger] classes[c], abstracts) && classes[c].0
                    == contract_names(h.1)[j];
            contract_has_node(docs_of(h.1), classes, abstracts, m, c);
            let at = choose|at: int| 0 <= at < all.len() && all[at] == h;
            header_nodes_stay(all, all.len() as int, at, "contract:"@ + classes[c].0, "HalContract"@);
        } else {
            interface_contract_has_node(headers, all, stem, k + 1, j);
        }
    }
}

proof fn implements_edge_shape(plat: Seq<char>, file: Seq<char>, contracts: Seq<Seq<char>>, n: int, j: int)
    requires
        0 <= n <= contracts.len(),
        0 <= j < implements_edges(plat, file, contracts, n).len(),
    ensures
        implements_edges(plat, file, contracts, n)[j] == (HalGraphEdgeView {
            kind: "implements"@,
            from: impl_node(plat, file).id,
            to: "contract:"@ + contracts[j],
        }),
        implements_edges(plat, file, contracts, n).len() == n,
    decreases n,
{
    if n > 0 {
        if j < implements_edges(plat, file, contracts, n - 1).len() {
            implements_edge_shape(plat, file, contracts, n - 1, j);
        } else if n > 1 {
            implements_edge_shape(plat, file, contracts, n - 1, 0);
        }
    }
}

proof fn platform_edge_shape(kind: Seq<char>, contracts: Seq<Seq<char>>, plat: Seq<char>, n: int, j: int)
    requires
        0 <= n <= contracts.len(),
        0 <= j < platform_edges(kind, contracts, plat, n).len(),
    ensures
        platform_edges(kind, contracts, plat, n)[j] == (HalGraphEdgeView {
            kind,
            from: "contract:"@ + contracts[j],
            to: "platform:"@ + plat,
        }),
        platform_edges(kind, contracts, plat, n).len() == n,
    decreases n,
{
    if n > 0 {
        if j < platform_edges(kind, contracts, plat, n - 1).len() {
            platform_edge_shape(kind, contracts, plat, n - 1, j);
        } else if n > 1 {
            platform_edge_shape(kind, contracts, plat, n - 1, 0);
        }
    }
}

proof fn edges_are_counted(plat: Seq<char>, file: Seq<char>, kind: Seq<char>, contracts: Seq<Seq<char>>, n: int)
    requires
        0 <= n,
    ensures
        implements_edges(plat, file, contracts, n).len() == n,
        platform_edges(kind, contracts, plat, n).len() == n,
    decreases n,
{
    if n > 0 {
        edges_are_counted(plat, file, kind, contracts, n - 1);
    }
}

proof fn file_has_node(
    t: ProjectTreeView,
    plat: (Seq<char>, Seq<char>),
    ifaces: Seq<(Seq<char>, HalInterfaceCoverageView)>,
    files: Seq<Seq<char>>,
    n: int,
    k: int,
)
    requires
        0 <= k < n <= files.len(),
        is_impl_file(t, plat.1, files[k], ifaces),
    ensures
        has_node(file_nodes(t, plat, ifaces, files, n), impl_node(plat.0, files[k]).id, "HalImpl"@),
    decreases n,
{
    let done = file_nodes(t, plat, ifaces, files, n - 1);
    let all = file_nodes(t, plat, ifaces, files, n);
    if k == n - 1 {
        assert(all[done.len() as int] == impl_node(plat.0, files[k]));
    } else {
        file_has_node(t, plat, ifaces, files, n - 1, k);
        let i = choose|i: int|
            0 <= i < done.len() && (#[trigger] done[i]).id == impl_node(plat.0, files[k]).id && done[i].kind
                == "HalImpl"@;
        assert(all[i] == done[i]);
    }
}

/// An edge from a file comes from one that is attributed to the interface, and goes
/// to one of its contracts.
proof fn file_edge_shape(
    t: ProjectTreeView,
    plat: (Seq<char>, Seq<char>),
    stem: Seq<char>,
    contracts: Seq<Seq<char>>,
    files: Seq<Seq<char>>,
    n: int,
    j: int,
)
    requires
        0 <= n <= files.len(),
        0 <= j < file_edges(t, plat, stem, contracts, files, n).len(),
    ensures
        exists|k: int, c: int|
            0 <= k < n && 0 <= c < contracts.len() && is_attributed(t, plat.1, #[trigger] files[k], stem)
                && file_edges(t, plat, stem, contracts, files, n)[j] == (HalGraphEdgeView {
                kind: "implements"@,
                from: impl_node(plat.0, files[k]).id,
                to: "contract:"@ + #[trigger] contracts[c],
            }),
    decreases n,
{
    if n > 0 {
        let done = file_edges(t, plat, stem, contracts, files, n - 1);
        let all = file_edges(t, plat, stem, contracts, files, n);
        if j < done.len() {
            file_edge_shape(t, plat, stem, contracts, files, n - 1, j);
            let (k, c) = choose|k: int, c: int|
                0 <= k < n - 1 && 0 <= c < contracts.len() && is_attributed(
                    t,
                    plat.1,
                    #[trigger] files[k],
                    stem,
                ) && done[j] == (HalGraphEdgeView {
                    kind: "implements"@,
                    from: impl_node(plat.0, files[k]).id,
                    to: "contract:"@ + #[trigger] contracts[c],
                });
            assert(all[j] == done[j]);
            assert(is_attributed(t, plat.1, files[k], stem));
            assert(contracts[c] == contracts[c]);
        } else {
            let i = j - done.len();
            let more = implements_edges(plat.0, files[n - 1], contracts, contracts.len() as int);
            assert(all[j] == more[i]);
            edges_are_counted(plat.0, files[n - 1], Seq::empty(), contracts, contracts.len() as int);
            implements_edge_shape(plat.0, files[n - 1], contracts, contracts.len() as int, i);
            assert(is_attributed(t, plat.1, files[n - 1], stem));
            assert(contracts[i] == contracts[i]);
        }
    }
}

/// What is known of the nodes round the edges of a platform.
spec fn has_contracts(nodes: Seq<HalGraphNodeView>, contracts: Seq<Seq<char>>) -> bool {
    forall|c: int|
        0 <= c < contracts.len() ==> has_node(nodes, "contract:"@ + #[trigger] contracts[c], "HalContract"@)
}

proof fn iface_edges_join(
    t: ProjectTreeView,
    plat: (Seq<char>, Seq<char>),
    ifaces: Seq<(Seq<char>, HalInterfaceCoverageView)>,
    at: int,
    nodes: Seq<HalGraphNodeView>,
    j: int,
)
    requires
        0 <= at < ifaces.len(),
        0 <= j < iface_edges(t, plat, ifaces[at], names_in(t, plat.1)).len(),
        has_contracts(nodes, stem_contracts(contract_headers(t), ifaces[at].0, 0)),
        forall|k: int|
            0 <= k < names_in(t, plat.1).len() && is_impl_file(
                t,
                plat.1,
                #[trigger] names_in(t, plat.1)[k],
                ifaces,
            ) ==> has_node(nodes, impl_node(plat.0, names_in(t, plat.1)[k]).id, "HalImpl"@),
    ensures
        joins(nodes, iface_edges(t, plat, ifaces[at], names_in(t, plat.1))[j]),
{
    reveal_strlit("derives");
    reveal_strlit("implements");
    reveal_strlit("missing");
    reveal_strlit("drifted");
    let files = names_in(t, plat.1);
    let n = files.len() as int;
    let iface = ifaces[at];
    let contracts = stem_contracts(contract_headers(t), iface.0, 0);
    let m = contracts.len() as int;
    let e = iface_edges(t, plat, iface, files)[j];
    edges_are_counted(plat.0, Seq::empty(), "missing"@, contracts, m);
    edges_are_counted(plat.0, Seq::empty(), "drifted"@, contracts, m);
    assert("derives"@ != "missing"@ && "derives"@ != "drifted"@ && "derives"@ != "implements"@) by {
        assert("derives"@[0] == 'd' && "missing"@[0] == 'm' && "implements"@[0] == 'i');
        assert("derives"@[1] == 'e' && "drifted"@[1] == 'r');
    }
    assert("implements"@ != "missing"@ && "implements"@ != "drifted"@) by {
        assert("drifted"@[0] == 'd' && "missing"@[0] == 'm' && "implements"@[0] == 'i');
    }
    if !iface.1.has_impl {
        platform_edge_shape("missing"@, contracts, plat.0, m, j);
        assert(has_node(nodes, "contract:"@ + contracts[j], "HalContract"@));
    } else {
        let first = file_edges(t, plat, iface.0, contracts, files, n);
        if j < first.len() {
            file_edge_shape(t, plat, iface.0, contracts, files, n, j);
            let (k, c) = choose|k: int, c: int|
                0 <= k < n && 0 <= c < contracts.len() && is_attributed(
                    t,
                    plat.1,
                    #[trigger] files[k],
                    iface.0,
                ) && first[j] == (HalGraphEdgeView {
                    kind: "implements"@,
                    from: impl_node(plat.0, files[k]).id,
                    to: "contract:"@ + #[trigger] contracts[c],
                });
            assert(e == first[j]);
            assert(is_attributed(t, plat.1, files[k], ifaces[at].0));
            assert(is_impl_file(t, plat.1, files[k], ifaces));
            assert(has_node(nodes, "contract:"@ + contracts[c], "HalContract"@));
        } else {
            let i = j - first.len();
            assert(e == platform_edges("drifted"@, contracts, plat.0, m)[i]);
            platform_edge_shape("drifted"@, contracts, plat.0, m, i);
            assert(has_node(nodes, "contract:"@ + contracts[i], "HalContract"@));
        }
    }
}

proof fn ifaces_edges_join(
    t: ProjectTreeView,
    plat: (Seq<char>, Seq<char>),
    ifaces: Seq<(Seq<char>, HalInterfaceCoverageView)>,
    n: int,
    nodes: Seq<HalGraphNodeView>,
    j: int,
)
    requires
        0 <= n <= ifaces.len(),
        0 <= j < ifaces_edges(t, plat, ifaces, names_in(t, plat.1), n).len(),
        forall|i: int|
            0 <= i < ifaces.len() ==> has_contracts(
                nodes,
                stem_contracts(contract_headers(t), (#[trigger] ifaces[i]).0, 0),
            ),
        forall|k: int|
            0 <= k < names_in(t, plat.1).len() && is_impl_file(
                t,
                plat.1,
                #[trigger] names_in(t, plat.1)[k],
                ifaces,
            ) ==> has_node(nodes, impl_node(plat.0, names_in(t, plat.1)[k]).id, "HalImpl"@),
    ensures
        joins(nodes, ifaces_edges(t, plat, ifaces, names_in(t, plat.1), n)[j]),
    decreases n,
{
    if n > 0 {
        let files = names_in(t, plat.1);
        let done = ifaces_edges(t, plat, ifaces, files, n - 1);
        if j < done.len() {
            ifaces_edges_join(t, plat, ifaces, n - 1, nodes, j);
        } else {
            assert(has_contracts(nodes, stem_contracts(contract_headers(t), ifaces[n - 1].0, 0)));
            iface_edges_join(t, plat, ifaces, n - 1, nodes, j - done.len());
        }
    }
}

/// The nodes of a platform's files are among those of all platforms.
proof fn platform_nodes_stay(
    t: ProjectTreeView,
    cov: Seq<(Seq<char>, Seq<(Seq<char>, HalInterfaceCoverageView)>)>,
    plats: Seq<(Seq<char>, Seq<char>)>,
    n: int,
    m: int,
    id: Seq<char>,
    kind: Seq<char>,
)
    requires
        0 <= n <= m <= plats.len(),
        has_node(platforms_parts(t, cov, plats, n).0, id, kind),
    ensures
        has_node(platforms_parts(t, cov, plats, m).0, id, kind),
    decreases m - n,
{
    if n < m {
        platform_nodes_stay(t, cov, plats, n, m - 1, id, kind);
        let nodes = platforms_parts(t, cov, plats, m - 1).0;
        if let Some(ifaces) = value_at(cov, plats[m - 1].0) {
            let files = names_in(t, plats[m - 1].1);
            node_stays(nodes, file_nodes(t, plats[m - 1], ifaces, files, files.len() as int), id, kind);
        }
    }
}

proof fn platform_edges_join(
    t: ProjectTreeView,
    cov: Seq<(Seq<char>, Seq<(Seq<char>, HalInterfaceCoverageView)>)>,
    plats: Seq<(Seq<char>, Seq<char>)>,
    n: int,
    nodes: Seq<HalGraphNodeView>,
    j: int,
)
    requires
        0 <= n <= plats.len(),
        0 <= j < platforms_parts(t, cov, plats, n).1.len(),
        forall|stem: Seq<char>| has_contracts(nodes, #[trigger] stem_contracts(contract_headers(t), stem, 0)),
        forall|id: Seq<char>|
            #[trigger] has_node(platforms_parts(t, cov, plats, plats.len() as int).0, id, "HalImpl"@)
                ==> has_node(nodes, id, "HalImpl"@),
    ensures
        joins(nodes, platforms_parts(t, cov, plats, n).1[j]),
    decreases n,
{
    if n > 0 {
        let (before, edges) = platforms_parts(t, cov, plats, n - 1);
        if j < edges.len() {
            platform_edges_join(t, cov, plats, n - 1, nodes, j);
        } else if let Some(ifaces) = value_at(cov, plats[n - 1].0) {
            let plat = plats[n - 1];
            let files = names_in(t, plat.1);
            let own = file_nodes(t, plat, ifaces, files, files.len() as int);
            assert forall|k: int|
                0 <= k < files.len() && is_impl_file(t, plat.1, #[trigger] files[k], ifaces) implies has_node(
                nodes,
                impl_node(plat.0, files[k]).id,
                "HalImpl"@,
            ) by {
                let id = impl_node(plat.0, files[k]).id;
                file_has_node(t, plat, ifaces, files, files.len() as int, k);
                node_stays(before, own, id, "HalImpl"@);
                platform_nodes_stay(t, cov, plats, n, plats.len() as int, id, "HalImpl"@);
            }
            ifaces_edges_join(t, plat, ifaces, ifaces.len() as int, nodes, j - edges.len());
        }
    }
}

/// Every edge of the graph joins nodes that the graph has: a `derives` edge goes from
/// a contract to the module base, an `implements` edge from an implementation file to
/// a contract, and a `missing` or `drifted` edge starts at a contract.
pub proof fn edges_join_nodes(t: ProjectTreeView, j: int)
    requires
        0 <= j < graph_of(t).edges.len(),
    ensures
        joins(graph_of(t).nodes, graph_of(t).edges[j]),
{
    let headers = graph_headers(t);
    let n = headers.len() as int;
    let (nodes, edges) = headers_parts(headers, n);
    let module = common_node("module:hal::HalModule"@, "HalModule"@, "hal::HalModule"@, None);
    let plats = platform_dirs(t);
    let cov = coverage_map(t);
    let (impl_nodes, impl_edges) = platforms_parts(t, cov, plats, plats.len() as int);
    let all = graph_of(t).nodes;
    assert(all =~= nodes + seq![module] + impl_nodes);
    assert(seq![module][0] == module);
    node_within(nodes, seq![module], impl_nodes, module.id, "HalModule"@);
    if j < edges.len() {
        header_edges_join(headers, n, j);
        assert(graph_of(t).edges[j] == edges[j]);
        node_stays(nodes, seq![module] + impl_nodes, edges[j].from, "HalContract"@);
        assert(nodes + (seq![module] + impl_nodes) =~= all);
    } else {
        let declaring = contract_headers(t);
        assert forall|i: int| 0 <= i < declaring.len() implies headers.contains(#[trigger] declaring[i]) by {
            let api = headers_in(t, "hal/api"@);
            let types = headers_in(t, "hal/types"@);
            let old = headers_in(t, "toolkit/src/hal/api"@);
            if i < api.len() {
                assert(headers[i] == declaring[i]);
            } else {
                assert(headers[types.len() + i] == declaring[i]);
            }
        }
        assert forall|stem: Seq<char>| has_contracts(all, #[trigger] stem_contracts(declaring, stem, 0)) by {
            let contracts = stem_contracts(declaring, stem, 0);
            assert forall|c: int| 0 <= c < contracts.len() implies has_node(
                all,
                "contract:"@ + #[trigger] contracts[c],
                "HalContract"@,
            ) by {
                interface_contract_has_node(declaring, headers, stem, 0, c);
                node_stays(nodes, seq![module] + impl_nodes, "contract:"@ + contracts[c], "HalContract"@);
                assert(nodes + (seq![module] + impl_nodes) =~= all);
            }
        }
        assert forall|id: Seq<char>| #[trigger] has_node(impl_nodes, id, "HalImpl"@) implies has_node(
            all,
            id,
            "HalImpl"@,
        ) by {
            node_stays(nodes + seq![module], impl_nodes, id, "HalImpl"@);
        }
        platform_edges_join(t, cov, plats, plats.len() as int, all, j - edges.len());
        assert(graph_of(t).edges[j] == impl_edges[j - edges.len()]);
    }
}

} // verus!
