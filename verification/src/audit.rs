//! The verification of a HAL project: its contracts, its coverage and the
//! implementation files that belong to no contract.

use vstd::prelude::*;

use crate::coverage::{
    coverage_map, file_implements_stem, hal_platform_coverage_map, implements_stem,
    HalInterfaceCoverage, HalInterfaceCoverageView,
};
use crate::cpp::{
    base_classes, contract_classes, extract_contract_methods_cpp, extract_cpp_base_classes, has_base,
    names_base, HalContractMethod, HalContractMethodView,
};
use crate::docs::{
    class_doc_from, doc_on, docs_of, find_class_doc, find_doc, has_tag, parse_hal_docs, tagged,
    tags_or_none, HalDoc, HalDocView,
};
use crate::project::{
    dir_at, file_stem, full_path, headers_in, join_path, names_in, path_from_root, path_join, stem_of,
    ProjectTree, ProjectTreeView,
};
use crate::report::{find_tag_value, tag_value};
use crate::text::{
    add_item, add_items, contains, cut_tail_text, ends, ends_with, has_text, join, joined, strip_tail,
};

verus! {

/// One problem of a HAL project.
#[derive(Debug, PartialEq, Eq)]
pub struct HalIssue {
    /// `error`, `warning` or `info`.
    pub severity: String,
    pub title: String,
    pub path: String,
    pub message: String,
    pub suggested_fix: String,
}

/// What a [`HalIssue`] holds.
#[verifier::ext_equal]
pub struct HalIssueView {
    pub severity: Seq<char>,
    pub title: Seq<char>,
    pub path: Seq<char>,
    pub message: Seq<char>,
    pub suggested_fix: Seq<char>,
}

impl DeepView for HalIssue {
    type V = HalIssueView;

    open spec fn deep_view(&self) -> HalIssueView {
        HalIssueView {
            severity: self.severity@,
            title: self.title@,
            path: self.path@,
            message: self.message@,
            suggested_fix: self.suggested_fix@,
        }
    }
}

impl Clone for HalIssue {
    fn clone(&self) -> (r: Self)
        ensures
            r.deep_view() == self.deep_view(),
    {
        HalIssue {
            severity: self.severity.clone(),
            title: self.title.clone(),
            path: self.path.clone(),
            message: self.message.clone(),
            suggested_fix: self.suggested_fix.clone(),
        }
    }
}

fn new_issue(severity: &str, title: &str, path: &str, message: String, suggested_fix: String) -> (r: HalIssue)
    ensures
        r.deep_view() == (HalIssueView {
            severity: severity@,
            title: title@,
            path: path@,
            message: message@,
            suggested_fix: suggested_fix@,
        }),
{
    HalIssue {
        severity: severity.to_owned(),
        title: title.to_owned(),
        path: path.to_owned(),
        message,
        suggested_fix,
    }
}

// ---------------------------------------------------------------------------
// Contract headers
// ---------------------------------------------------------------------------

/// The contract is not in the namespace.
pub open spec fn namespace_issue(path: Seq<char>) -> HalIssueView {
    HalIssueView {
        severity: "error"@,
        title: "contract not in namespace hal"@,
        path: path,
        message: "contract must declare `namespace hal`"@,
        suggested_fix: "rename the namespace to `hal`"@,
    }
}

/// The contract does not derive the module base.
pub open spec fn base_issue(path: Seq<char>) -> HalIssueView {
    HalIssueView {
        severity: "error"@,
        title: "contract does not derive hal::HalModule"@,
        path: path,
        message: "contract class must derive hal::HalModule"@,
        suggested_fix: "derive `hal::HalModule` publicly"@,
    }
}

/// The contract has no `@id`.
pub open spec fn id_issue(path: Seq<char>) -> HalIssueView {
    HalIssueView {
        severity: "warning"@,
        title: "contract missing @id doc"@,
        path: path,
        message: "add `/// @id <module-id>`"@,
        suggested_fix: "add an @id tag and matching id() override"@,
    }
}

/// The `@id` is not what the contract's `id()` returns.
pub open spec fn id_differs_issue(path: Seq<char>, mid: Seq<char>) -> HalIssueView {
    HalIssueView {
        severity: "warning"@,
        title: "@id and id() disagree"@,
        path: path,
        message: "doc @id `"@ + mid + "` must match `id()` override"@,
        suggested_fix: "make `id()` return `"@ + mid + "`"@,
    }
}

/// A method has no `@brief`.
pub open spec fn method_issue(path: Seq<char>, cname: Seq<char>, m: HalContractMethodView) -> HalIssueView {
    HalIssueView {
        severity: "info"@,
        title: "method missing @brief"@,
        path: path,
        message: cname
            + "::"@
            + m.name
            + "("@
            + m.params
            + ") — add a one-line @brief"@,
        suggested_fix: "document `"@ + m.name + "` with `/// @brief …`"@,
    }
}

/// The issues of the first `n` methods of a class.
pub open spec fn methods_issues(
    docs: Seq<HalDocView>,
    path: Seq<char>,
    cname: Seq<char>,
    methods: Seq<HalContractMethodView>,
    n: int,
) -> Seq<HalIssueView>
    decreases n,
{
    if n <= 0 {
        Seq::empty()
    } else {
        let done = methods_issues(docs, path, cname, methods, n - 1);
        if has_tag(tags_or_none(doc_on(docs, methods[n - 1].name)), "@brief"@) {
            done
        } else {
            done.push(method_issue(path, cname, methods[n - 1]))
        }
    }
}

/// The issues of the methods of the first `n` classes.
pub open spec fn classes_issues(
    docs: Seq<HalDocView>,
    path: Seq<char>,
    classes: Seq<(Seq<char>, Seq<HalContractMethodView>)>,
    n: int,
) -> Seq<HalIssueView>
    decreases n,
{
    if n <= 0 {
        Seq::empty()
    } else {
        classes_issues(docs, path, classes, n - 1) + methods_issues(
            docs,
            path,
            classes[n - 1].0,
            classes[n - 1].1,
            classes[n - 1].1.len() as int,
        )
    }
}

/// The issue of the contract's id, if there is one.
pub open spec fn id_issues(
    content: Seq<char>,
    docs: Seq<HalDocView>,
    classes: Seq<(Seq<char>, Seq<HalContractMethodView>)>,
    path: Seq<char>,
) -> Seq<HalIssueView> {
    match tag_value(tags_or_none(class_doc_from(docs, classes, 0)), "@id"@) {
        None => seq![id_issue(path)],
        Some(mid) => if has_text(content, "return \""@ + mid + "\""@) {
            Seq::empty()
        } else {
            seq![id_differs_issue(path, mid)]
        },
    }
}

/// The issues of a contract header.
pub open spec fn contract_issues(
    content: Seq<char>,
    classes: Seq<(Seq<char>, Seq<HalContractMethodView>)>,
    path: Seq<char>,
) -> Seq<HalIssueView> {
    let docs = docs_of(content);
    let named: Seq<HalIssueView> = if has_text(content, "namespace hal"@) {
        Seq::empty()
    } else {
        seq![namespace_issue(path)]
    };
    let derived: Seq<HalIssueView> = if has_base(base_classes(content), "HalModule"@) {
        Seq::empty()
    } else {
        seq![base_issue(path)]
    };
    named + derived + id_issues(content, docs, classes, path) + classes_issues(
        docs,
        path,
        classes,
        classes.len() as int,
    )
}

fn check_id(
    content: &str,
    docs: &Vec<HalDoc>,
    classes: &Vec<(String, Vec<HalContractMethod>)>,
    path: &str,
) -> (r: Vec<HalIssue>)
    ensures
        r.deep_view() == id_issues(content@, docs.deep_view(), classes.deep_view(), path@),
{
    let mut out: Vec<HalIssue> = Vec::new();
    assert(out.deep_view() =~= Seq::empty());
    let mid = match find_class_doc(docs, classes) {
        Some(k) => find_tag_value(&docs[k].tags, "@id"),
        None => None,
    };
    assert(class_doc_from(docs.deep_view(), classes.deep_view(), 0) is None ==> tag_value(
        Seq::empty(),
        "@id"@,
    ) is None);
    match mid {
        None => {
            add_item(
                &mut out,
                new_issue(
                    "warning",
                    "contract missing @id doc",
                    path,
                    "add `/// @id <module-id>`".to_owned(),
                    "add an @id tag and matching id() override".to_owned(),
                ),
            );
        },
        Some(mid) => {
            let mid = mid.as_str();
            let mut expected = "return \"".to_owned();
            expected.append(mid);
            expected.append("\"");
            if !contains(content, expected.as_str()) {
                let mut message = "doc @id `".to_owned();
                message.append(mid);
                message.append("` must match `id()` override");
                let mut fix = "make `id()` return `".to_owned();
                fix.append(mid);
                fix.append("`");
                add_item(&mut out, new_issue("warning", "@id and id() disagree", path, message, fix));
            }
        },
    }
    assert(out.deep_view() =~= id_issues(
        content@,
        docs.deep_view(),
        classes.deep_view(),
        path@,
    ));
    out
}

fn check_methods(
    docs: &Vec<HalDoc>,
    path: &str,
    cname: &str,
    methods: &Vec<HalContractMethod>,
) -> (r: Vec<HalIssue>)
    ensures
        r.deep_view() == methods_issues(
            docs.deep_view(),
            path@,
            cname@,
            methods.deep_view(),
            methods@.len() as int,
        ),
{
    let mut out: Vec<HalIssue> = Vec::new();
    assert(out.deep_view() =~= Seq::empty());
    let mut i: usize = 0;
    while i < methods.len()
        invariant
            i <= methods@.len(),
            out.deep_view() == methods_issues(
                docs.deep_view(),
                path@,
                cname@,
                methods.deep_view(),
                i as int,
            ),
        decreases methods@.len() - i,
    {
        let m = &methods[i];
        let brief = match find_doc(docs, m.name.as_str()) {
            Some(k) => tagged(&docs[k].tags, "@brief"),
            None => false,
        };
        if !brief {
            let mut message = cname.to_owned();
            message.append("::");
            message.append(m.name.as_str());
            message.append("(");
            message.append(m.params.as_str());
            message.append(") — add a one-line @brief");
            let mut fix = "document `".to_owned();
            fix.append(m.name.as_str());
            fix.append("` with `/// @brief …`");
            add_item(&mut out, new_issue("info", "method missing @brief", path, message, fix));
        }
        i = i + 1;
    }
    out
}

fn check_contract(
    content: &str,
    classes: &Vec<(String, Vec<HalContractMethod>)>,
    path: &str,
) -> (r: Vec<HalIssue>)
    ensures
        r.deep_view() == contract_issues(content@, classes.deep_view(), path@),
{
    let docs = parse_hal_docs(content);
    let mut out: Vec<HalIssue> = Vec::new();
    assert(out.deep_view() =~= Seq::empty());
    if !contains(content, "namespace hal") {
        add_item(
            &mut out,
            new_issue(
                "error",
                "contract not in namespace hal",
                path,
                "contract must declare `namespace hal`".to_owned(),
                "rename the namespace to `hal`".to_owned(),
            ),
        );
    }
    let ghost named = out.deep_view();
    let mut derived: Vec<HalIssue> = Vec::new();
    assert(derived.deep_view() =~= Seq::empty());
    if !names_base(&extract_cpp_base_classes(content), "HalModule") {
        add_item(
            &mut derived,
            new_issue(
                "error",
                "contract does not derive hal::HalModule",
                path,
                "contract class must derive hal::HalModule".to_owned(),
                "derive `hal::HalModule` publicly".to_owned(),
            ),
        );
    }
    assert(named =~= if has_text(content@, "namespace hal"@) {
        Seq::empty()
    } else {
        seq![namespace_issue(path@)]
    });
    assert(derived.deep_view() =~= if has_base(base_classes(content@), "HalModule"@) {
        Seq::empty()
    } else {
        seq![base_issue(path@)]
    });
    add_items(&mut out, derived);
    add_items(&mut out, check_id(content, &docs, classes, path));
    let ghost all = classes.deep_view();
    let mut rest: Vec<HalIssue> = Vec::new();
    assert(rest.deep_view() =~= Seq::empty());
    let mut i: usize = 0;
    while i < classes.len()
        invariant
            i <= classes@.len(),
            all == classes.deep_view(),
            rest.deep_view() == classes_issues(docs.deep_view(), path@, all, i as int),
        decreases classes@.len() - i,
    {
        assert(all[i as int] == (classes[i as int].0@, classes[i as int].1.deep_view()));
        let more = check_methods(&docs, path, classes[i].0.as_str(), &classes[i].1);
        add_items(&mut rest, more);
        i = i + 1;
    }
    add_items(&mut out, rest);
    out
}

/// The issues of the contracts among the first `n` headers, and the contracts'
/// stems.
pub open spec fn headers_issues(root: Seq<char>, headers: Seq<(Seq<char>, Seq<char>)>, n: int) -> (
    Seq<HalIssueView>,
    Seq<Seq<char>>,
)
    decreases n,
{
    if n <= 0 {
        (Seq::empty(), Seq::empty())
    } else {
        let (issues, stems) = headers_issues(root, headers, n - 1);
        let (name, content) = headers[n - 1];
        let classes = contract_classes(content);
        if classes.len() == 0 {
            (issues, stems)
        } else {
            let path = full_path(root, path_join("hal/api"@, name));
            (issues + contract_issues(content, classes, path), stems.push(stem_of(name)))
        }
    }
}

// ---------------------------------------------------------------------------
// Coverage
// ---------------------------------------------------------------------------

/// What an incomplete implementation lacks.
pub open spec fn gap_message(plat: Seq<char>, stem: Seq<char>, c: HalInterfaceCoverageView) -> Seq<char> {
    let missing = plat
            + ": "@
            + stem
            + " missing ["@
            + joined(c.missing, ", "@)
            + "]"@;
    if c.drifted.len() == 0 {
        missing
    } else {
        missing + (" + drifted ["@ + joined(c.drifted, ", "@) + "]"@)
    }
}

/// An implementation is incomplete.
pub open spec fn gap_issue(plat: Seq<char>, stem: Seq<char>, c: HalInterfaceCoverageView) -> HalIssueView {
    HalIssueView {
        severity: "warning"@,
        title: "incomplete HAL implementation"@,
        path: "hal/implementations/"@ + plat,
        message: gap_message(plat, stem, c),
        suggested_fix: "fill missing/drifted methods or mark SPIRE-HAL-STUB pending"@,
    }
}

/// The issues of the first `n` interfaces of a platform.
pub open spec fn ifaces_issues(
    plat: Seq<char>,
    ifaces: Seq<(Seq<char>, HalInterfaceCoverageView)>,
    n: int,
) -> Seq<HalIssueView>
    decreases n,
{
    if n <= 0 {
        Seq::empty()
    } else {
        let done = ifaces_issues(plat, ifaces, n - 1);
        if ifaces[n - 1].1.implemented {
            done
        } else {
            done.push(gap_issue(plat, ifaces[n - 1].0, ifaces[n - 1].1))
        }
    }
}

/// The issues of the first `n` platforms.
pub open spec fn coverage_issues(
    cov: Seq<(Seq<char>, Seq<(Seq<char>, HalInterfaceCoverageView)>)>,
    n: int,
) -> Seq<HalIssueView>
    decreases n,
{
    if n <= 0 {
        Seq::empty()
    } else {
        coverage_issues(cov, n - 1) + ifaces_issues(
            cov[n - 1].0,
            cov[n - 1].1,
            cov[n - 1].1.len() as int,
        )
    }
}

fn report_gap(plat: &str, stem: &str, c: &HalInterfaceCoverage) -> (r: HalIssue)
    ensures
        r.deep_view() == gap_issue(plat@, stem@, c.deep_view()),
{
    let m = join(&c.missing, ", ");
    let mut message = plat.to_owned();
    message.append(": ");
    message.append(stem);
    message.append(" missing [");
    message.append(m.as_str());
    message.append("]");
    if c.drifted.len() > 0 {
        let mut more = " + drifted [".to_owned();
        more.append(join(&c.drifted, ", ").as_str());
        more.append("]");
        message.append(more.as_str());
    }
    let mut path = "hal/implementations/".to_owned();
    path.append(plat);
    new_issue(
        "warning",
        "incomplete HAL implementation",
        path.as_str(),
        message,
        "fill missing/drifted methods or mark SPIRE-HAL-STUB pending".to_owned(),
    )
}

fn check_coverage(cov: &Vec<(String, Vec<(String, HalInterfaceCoverage)>)>) -> (r: Vec<HalIssue>)
    ensures
        r.deep_view() == coverage_issues(cov.deep_view(), cov@.len() as int),
{
    let ghost all = cov.deep_view();
    let mut out: Vec<HalIssue> = Vec::new();
    assert(out.deep_view() =~= Seq::empty());
    let mut i: usize = 0;
    while i < cov.len()
        invariant
            i <= cov@.len(),
            all == cov.deep_view(),
            out.deep_view() == coverage_issues(all, i as int),
        decreases cov@.len() - i,
    {
        let plat = cov[i].0.as_str();
        let ifaces = &cov[i].1;
        let ghost list = ifaces.deep_view();
        assert(all[i as int] == (plat@, list));
        let mut part: Vec<HalIssue> = Vec::new();
        assert(part.deep_view() =~= Seq::empty());
        let mut k: usize = 0;
        while k < ifaces.len()
            invariant
                k <= ifaces@.len(),
                list == ifaces.deep_view(),
                part.deep_view() == ifaces_issues(plat@, list, k as int),
            decreases ifaces@.len() - k,
        {
            if !ifaces[k].1.implemented {
                add_item(&mut part, report_gap(plat, ifaces[k].0.as_str(), &ifaces[k].1));
            }
            k = k + 1;
        }
        add_items(&mut out, part);
        i = i + 1;
    }
    out
}

// ---------------------------------------------------------------------------
// Orphans
// ---------------------------------------------------------------------------

/// The file belongs to one of the contracts.
pub open spec fn belongs(file: Seq<char>, stems: Seq<Seq<char>>) -> bool {
    exists|i: int|
        0 <= i < stems.len() && implements_stem(strip_tail(file, ".cpp"@), #[trigger] stems[i])
}

/// A file belongs to no contract.
pub open spec fn orphan_issue(path: Seq<char>, file: Seq<char>) -> HalIssueView {
    HalIssueView {
        severity: "info"@,
        title: "orphan HAL implementation"@,
        path: path,
        message: file + ": stem does not match any contract"@,
        suggested_fix: "rename to `<contract>_<impl>.cpp` or remove"@,
    }
}

/// The orphans among the first `n` files of a directory.
pub open spec fn dir_orphans(
    root: Seq<char>,
    dir: Seq<char>,
    files: Seq<Seq<char>>,
    stems: Seq<Seq<char>>,
    n: int,
) -> Seq<HalIssueView>
    decreases n,
{
    if n <= 0 {
        Seq::empty()
    } else {
        let done = dir_orphans(root, dir, files, stems, n - 1);
        if ends(files[n - 1], ".cpp"@) && !belongs(files[n - 1], stems) {
            done.push(orphan_issue(full_path(root, path_join(dir, files[n - 1])), files[n - 1]))
        } else {
            done
        }
    }
}

/// The orphans of the first `n` implementation directories.
pub open spec fn orphan_issues(
    t: ProjectTreeView,
    names: Seq<Seq<char>>,
    stems: Seq<Seq<char>>,
    n: int,
) -> Seq<HalIssueView>
    decreases n,
{
    if n <= 0 {
        Seq::empty()
    } else {
        let done = orphan_issues(t, names, stems, n - 1);
        let dir = path_join("hal/implementations"@, names[n - 1]);
        if dir_at(t, dir) {
            done + dir_orphans(t.root, dir, names_in(t, dir), stems, names_in(t, dir).len() as int)
        } else {
            done
        }
    }
}

fn has_owner(file: &str, stems: &Vec<String>) -> (r: bool)
    ensures
        r == belongs(file@, stems.deep_view()),
{
    let stem = cut_tail_text(file, ".cpp");
    let ghost all = stems.deep_view();
    let mut i: usize = 0;
    while i < stems.len()
        invariant
            i <= stems@.len(),
            all == stems.deep_view(),
            stem@ == strip_tail(file@, ".cpp"@),
            forall|j: int| 0 <= j < i ==> !implements_stem(stem@, #[trigger] all[j]),
        decreases stems@.len() - i,
    {
        if file_implements_stem(stem, stems[i].as_str()) {
            assert(implements_stem(stem@, all[i as int]));
            return true;
        }
        i = i + 1;
    }
    false
}

fn check_orphans(tree: &ProjectTree, dir: &str, stems: &Vec<String>) -> (r: Vec<HalIssue>)
    ensures
        r.deep_view() == dir_orphans(
            tree.root@,
            dir@,
            names_in(tree.deep_view(), dir@),
            stems.deep_view(),
            names_in(tree.deep_view(), dir@).len() as int,
        ),
{
    let files = tree.list(dir);
    let ghost list = files.deep_view();
    let mut out: Vec<HalIssue> = Vec::new();
    assert(out.deep_view() =~= Seq::empty());
    let mut i: usize = 0;
    while i < files.len()
        invariant
            i <= files@.len(),
            list == files.deep_view(),
            out.deep_view() == dir_orphans(tree.root@, dir@, list, stems.deep_view(), i as int),
        decreases files@.len() - i,
    {
        let file = files[i].as_str();
        if ends_with(file, ".cpp") && !has_owner(file, stems) {
            let path = path_from_root(tree.root.as_str(), join_path(dir, file).as_str());
            let mut message = file.to_owned();
            message.append(": stem does not match any contract");
            add_item(
                &mut out,
                new_issue(
                    "info",
                    "orphan HAL implementation",
                    path.as_str(),
                    message,
                    "rename to `<contract>_<impl>.cpp` or remove".to_owned(),
                ),
            );
        }
        i = i + 1;
    }
    out
}

/// The names below `hal/implementations`, none where it is no directory.
pub open spec fn impl_names_in(t: ProjectTreeView) -> Seq<Seq<char>> {
    if dir_at(t, "hal/implementations"@) {
        names_in(t, "hal/implementations"@)
    } else {
        Seq::empty()
    }
}

/// The issues of a HAL project.
pub open spec fn project_issues(t: ProjectTreeView) -> Seq<HalIssueView> {
    let headers = headers_in(t, "hal/api"@);
    let (issues, stems) = headers_issues(t.root, headers, headers.len() as int);
    let cov = coverage_map(t);
    let names = impl_names_in(t);
    issues + coverage_issues(cov, cov.len() as int) + orphan_issues(
        t,
        names,
        stems,
        names.len() as int,
    )
}

/// Verifies a HAL project: the documentation of its contracts, what its
/// platforms lack, and implementation files without a contract.
pub fn hal_verify(tree: &ProjectTree) -> (r: Vec<HalIssue>)
    ensures
        r.deep_view() == project_issues(tree.deep_view()),
{
    let ghost t = tree.deep_view();
    let headers = tree.headers("hal/api");
    let ghost list = headers.deep_view();
    let mut issues: Vec<HalIssue> = Vec::new();
    let mut stems: Vec<String> = Vec::new();
    assert(issues.deep_view() =~= Seq::empty());
    assert(stems.deep_view() =~= Seq::empty());
    let mut i: usize = 0;
    while i < headers.len()
        invariant
            i <= headers@.len(),
            list == headers.deep_view(),
            (issues.deep_view(), stems.deep_view()) == headers_issues(tree.root@, list, i as int),
        decreases headers@.len() - i,
    {
        let name = headers[i].0.as_str();
        let content = headers[i].1.as_str();
        assert(list[i as int] == (name@, content@));
        let classes = extract_contract_methods_cpp(content);
        if classes.len() > 0 {
            let path = path_from_root(tree.root.as_str(), join_path("hal/api", name).as_str());
            add_items(&mut issues, check_contract(content, &classes, path.as_str()));
            add_item(&mut stems, file_stem(name).to_owned());
        }
        i = i + 1;
    }
    let cov = hal_platform_coverage_map(tree);
    add_items(&mut issues, check_coverage(&cov));
    let names = if tree.is_dir("hal/implementations") {
        tree.list("hal/implementations")
    } else {
        Vec::new()
    };
    assert(names.deep_view() =~= impl_names_in(t));
    let ghost plats = names.deep_view();
    let mut orphans: Vec<HalIssue> = Vec::new();
    assert(orphans.deep_view() =~= Seq::empty());
    let mut k: usize = 0;
    while k < names.len()
        invariant
            k <= names@.len(),
            t == tree.deep_view(),
            plats == names.deep_view(),
            orphans.deep_view() == orphan_issues(t, plats, stems.deep_view(), k as int),
        decreases names@.len() - k,
    {
        let dir = join_path("hal/implementations", names[k].as_str());
        if tree.is_dir(dir.as_str()) {
            add_items(&mut orphans, check_orphans(tree, dir.as_str(), &stems));
        }
        k = k + 1;
    }
    add_items(&mut issues, orphans);
    issues
}

} // verus!
