//! The state of a HAL project: its contracts and each platform's
//! implementation.

use vstd::prelude::*;

use crate::coverage::{
    coverage_map, hal_platform_coverage_map, HalInterfaceCoverage, HalInterfaceCoverageView,
};
use crate::cpp::{
    base_classes, cpp_syntax_check, extract_cpp_base_classes, has_base, names_base, syntax_report,
    CppSyntaxError, CppSyntaxErrorView,
};
use crate::docs::{
    copy_hal_doc_lint_issues, hal_doc_lint, lint_report, HalDocLintFile, HalDocLintFileView,
    HalDocLintIssue, HalDocLintIssueView,
};
use crate::generate::{is_hal_stub, is_stub_text};
use crate::project::{
    content_at, dir_at, entry_from, full_path, headers_in, headers_upto, join_path, names_in, path_from_root, path_join, small_texts,
    ProjectTree, ProjectTreeView,
};
use crate::syntax::cpp_syntax;
use crate::text::{add_item, add_items, list_has, same};

verus! {

/// The state of a project's contracts.
#[derive(Debug, Clone, Copy, PartialEq, Eq, Structural)]
pub enum HalContractState {
    /// There is no contract.
    NoContract,
    /// A contract header has syntax errors.
    InvalidSyntax { errors: usize },
    /// The contracts' documentation has issues.
    LintDirty { issues: usize },
    /// The contracts are in order.
    LintClean,
    /// A fix is under way.
    Fixing,
}

impl Default for HalContractState {
    fn default() -> (r: Self)
        ensures
            r == HalContractState::LintClean,
    {
        HalContractState::LintClean
    }
}

/// The state of one platform's implementation.
#[derive(Debug, PartialEq, Eq)]
pub enum HalImplState {
    /// Nothing is implemented.
    Missing,
    /// A stub is still to be filled in.
    StubPending,
    /// Contract methods are missing.
    Incomplete { missing: Vec<String> },
    /// Methods have other signatures than the contract's.
    Drifted { drifted: Vec<String> },
    /// Every contract is implemented.
    Complete,
    /// The sources do not parse.
    SyntaxError,
}

/// What a [`HalImplState`] holds.
#[verifier::ext_equal]
pub enum HalImplStateView {
    Missing,
    StubPending,
    Incomplete { missing: Seq<Seq<char>> },
    Drifted { drifted: Seq<Seq<char>> },
    Complete,
    SyntaxError,
}

impl DeepView for HalImplState {
    type V = HalImplStateView;

    open spec fn deep_view(&self) -> HalImplStateView {
        match self {
            HalImplState::Missing => HalImplStateView::Missing,
            HalImplState::StubPending => HalImplStateView::StubPending,
            HalImplState::Incomplete { missing } => HalImplStateView::Incomplete {
                missing: missing.deep_view(),
            },
            HalImplState::Drifted { drifted } => HalImplStateView::Drifted {
                drifted: drifted.deep_view(),
            },
            HalImplState::Complete => HalImplStateView::Complete,
            HalImplState::SyntaxError => HalImplStateView::SyntaxError,
        }
    }
}

impl Default for HalImplState {
    fn default() -> (r: Self)
        ensures
            r.deep_view() == HalImplStateView::Missing,
    {
        HalImplState::Missing
    }
}

/// The state of one platform.
#[derive(Debug, PartialEq, Eq)]
pub struct HalImplRow {
    pub platform: String,
    pub state: HalImplState,
    pub contracts: Vec<String>,
}

/// What a [`HalImplRow`] holds.
#[verifier::ext_equal]
pub struct HalImplRowView {
    pub platform: Seq<char>,
    pub state: HalImplStateView,
    pub contracts: Seq<Seq<char>>,
}

impl DeepView for HalImplRow {
    type V = HalImplRowView;

    open spec fn deep_view(&self) -> HalImplRowView {
        HalImplRowView {
            platform: self.platform@,
            state: self.state.deep_view(),
            contracts: self.contracts.deep_view(),
        }
    }
}

/// The state of a HAL project.
#[derive(Debug, PartialEq, Eq)]
pub struct HalStateSnapshot {
    pub contract: HalContractState,
    pub implementations: Vec<HalImplRow>,
    pub lint_issues: usize,
    pub syntax_errors: usize,
}

/// What a [`HalStateSnapshot`] holds.
#[verifier::ext_equal]
pub struct HalStateSnapshotView {
    pub contract: HalContractState,
    pub implementations: Seq<HalImplRowView>,
    pub lint_issues: usize,
    pub syntax_errors: usize,
}

impl DeepView for HalStateSnapshot {
    type V = HalStateSnapshotView;

    open spec fn deep_view(&self) -> HalStateSnapshotView {
        HalStateSnapshotView {
            contract: self.contract,
            implementations: self.implementations.deep_view(),
            lint_issues: self.lint_issues,
            syntax_errors: self.syntax_errors,
        }
    }
}

// ---------------------------------------------------------------------------
// Implementations
// ---------------------------------------------------------------------------

/// The list with the first `n` texts added that it lacks.
pub open spec fn with_absent(list: Seq<Seq<char>>, more: Seq<Seq<char>>, n: int) -> Seq<Seq<char>>
    decreases n,
{
    if n <= 0 {
        list
    } else {
        let done = with_absent(list, more, n - 1);
        if done.contains(more[n - 1]) {
            done
        } else {
            done.push(more[n - 1])
        }
    }
}

fn add_absent(list: &mut Vec<String>, more: &Vec<String>)
    ensures
        final(list).deep_view() == with_absent(
            old(list).deep_view(),
            more.deep_view(),
            more@.len() as int,
        ),
{
    let ghost start = list.deep_view();
    let mut i: usize = 0;
    while i < more.len()
        invariant
            i <= more@.len(),
            list.deep_view() == with_absent(start, more.deep_view(), i as int),
        decreases more@.len() - i,
    {
        if !list_has(list, more[i].as_str()) {
            add_item(list, more[i].clone());
        }
        i = i + 1;
    }
}

/// What the first `n` interfaces of a platform amount to.
#[verifier::ext_equal]
pub struct PlatformSum {
    pub contracts: Seq<Seq<char>>,
    pub has_impl: bool,
    pub missing: Seq<Seq<char>>,
    pub drifted: Seq<Seq<char>>,
}

/// What the first `n` interfaces of a platform amount to: their stems, whether
/// one has an implementation, and what the incomplete ones lack, each once.
pub open spec fn platform_sum(ifaces: Seq<(Seq<char>, HalInterfaceCoverageView)>, n: int) -> PlatformSum
    decreases n,
{
    if n <= 0 {
        PlatformSum {
            contracts: Seq::empty(),
            has_impl: false,
            missing: Seq::empty(),
            drifted: Seq::empty(),
        }
    } else {
        let s = platform_sum(ifaces, n - 1);
        let (stem, c) = ifaces[n - 1];
        PlatformSum {
            contracts: s.contracts.push(stem),
            has_impl: s.has_impl || c.has_impl,
            missing: if c.implemented {
                s.missing
            } else {
                with_absent(s.missing, c.missing, c.missing.len() as int)
            },
            drifted: if c.implemented {
                s.drifted
            } else {
                with_absent(s.drifted, c.drifted, c.drifted.len() as int)
            },
        }
    }
}

/// The state of a platform.
pub open spec fn impl_state(s: PlatformSum, stub: bool) -> HalImplStateView {
    if stub && (s.has_impl || s.missing.len() > 0) {
        HalImplStateView::StubPending
    } else if !s.has_impl && s.missing.len() == 0 {
        HalImplStateView::Missing
    } else if s.missing.len() > 0 {
        HalImplStateView::Incomplete { missing: s.missing }
    } else if s.drifted.len() > 0 {
        HalImplStateView::Drifted { drifted: s.drifted }
    } else {
        HalImplStateView::Complete
    }
}

/// One of the directory's files from `k` on is a pending stub.
pub open spec fn stub_from(t: ProjectTreeView, dir: Seq<char>, names: Seq<Seq<char>>, k: int) -> bool {
    exists|i: int|
        k <= i < names.len() && (content_at(t, path_join(dir, #[trigger] names[i])) matches Some(c)
            && is_stub_text(c))
}

/// The platform's implementation directory holds a pending stub.
pub open spec fn has_stub(t: ProjectTreeView, plat: Seq<char>) -> bool {
    let dir = path_join("hal/implementations"@, plat);
    dir_at(t, dir) && stub_from(t, dir, names_in(t, dir), 0)
}

/// The row of a platform.
pub open spec fn impl_row(
    t: ProjectTreeView,
    plat: Seq<char>,
    ifaces: Seq<(Seq<char>, HalInterfaceCoverageView)>,
) -> HalImplRowView {
    let s = platform_sum(ifaces, ifaces.len() as int);
    HalImplRowView {
        platform: plat,
        state: impl_state(s, has_stub(t, plat)),
        contracts: s.contracts,
    }
}

/// The rows of a project, one for each platform of its coverage.
pub open spec fn impl_rows(t: ProjectTreeView) -> Seq<HalImplRowView> {
    let cov = coverage_map(t);
    Seq::new(cov.len(), |i: int| impl_row(t, cov[i].0, cov[i].1))
}

fn finds_stub(tree: &ProjectTree, plat: &str) -> (r: bool)
    ensures
        r == has_stub(tree.deep_view(), plat@),
{
    let ghost t = tree.deep_view();
    let dir = join_path("hal/implementations", plat);
    if !tree.is_dir(dir.as_str()) {
        return false;
    }
    let names = tree.list(dir.as_str());
    let ghost list = names.deep_view();
    let mut i: usize = 0;
    while i < names.len()
        invariant
            i <= names@.len(),
            t == tree.deep_view(),
            list == names.deep_view(),
            list == names_in(t, dir@),
            dir@ == path_join("hal/implementations"@, plat@),
            dir_at(t, dir@),
            forall|j: int|
                0 <= j < i ==> !(content_at(t, path_join(dir@, #[trigger] list[j])) matches Some(c)
                    && is_stub_text(c)),
        decreases names@.len() - i,
    {
        match tree.read(join_path(dir.as_str(), names[i].as_str()).as_str()) {
            Some(c) => {
                if is_hal_stub(c.as_str()) {
                    assert(content_at(t, path_join(dir@, list[i as int])) matches Some(x)
                        && is_stub_text(x));
                    return true;
                }
            },
            None => {},
        }
        i = i + 1;
    }
    false
}

fn row_of_platform(
    tree: &ProjectTree,
    plat: &str,
    ifaces: &Vec<(String, HalInterfaceCoverage)>,
) -> (r: HalImplRow)
    ensures
        r.deep_view() == impl_row(tree.deep_view(), plat@, ifaces.deep_view()),
{
    let ghost all = ifaces.deep_view();
    let mut contracts: Vec<String> = Vec::new();
    let mut missing: Vec<String> = Vec::new();
    let mut drifted: Vec<String> = Vec::new();
    let mut has_impl = false;
    assert(contracts.deep_view() =~= Seq::empty());
    assert(missing.deep_view() =~= Seq::empty());
    assert(drifted.deep_view() =~= Seq::empty());
    let mut i: usize = 0;
    while i < ifaces.len()
        invariant
            i <= ifaces@.len(),
            all == ifaces.deep_view(),
            (PlatformSum {
                contracts: contracts.deep_view(),
                has_impl,
                missing: missing.deep_view(),
                drifted: drifted.deep_view(),
            }) == platform_sum(all, i as int),
        decreases ifaces@.len() - i,
    {
        let c = &ifaces[i].1;
        assert(all[i as int] == (ifaces[i as int].0@, c.deep_view()));
        add_item(&mut contracts, ifaces[i].0.clone());
        has_impl = has_impl || c.has_impl;
        if !c.implemented {
            add_absent(&mut missing, &c.missing);
            add_absent(&mut drifted, &c.drifted);
        }
        i = i + 1;
    }
    let stub = finds_stub(tree, plat);
    let state = if stub && (has_impl || missing.len() > 0) {
        HalImplState::StubPending
    } else if !has_impl && missing.len() == 0 {
        HalImplState::Missing
    } else if missing.len() > 0 {
        HalImplState::Incomplete { missing }
    } else if drifted.len() > 0 {
        HalImplState::Drifted { drifted }
    } else {
        HalImplState::Complete
    };
    HalImplRow { platform: plat.to_owned(), state, contracts }
}

/// The state of every platform, in dictionary order.
pub fn hal_impl_rows(tree: &ProjectTree) -> (r: Vec<HalImplRow>)
    ensures
        r.deep_view() == impl_rows(tree.deep_view()),
{
    let ghost t = tree.deep_view();
    let cov = hal_platform_coverage_map(tree);
    let ghost all = cov.deep_view();
    let mut out: Vec<HalImplRow> = Vec::new();
    assert(out.deep_view() =~= Seq::new(0, |j: int| impl_row(t, all[j].0, all[j].1)));
    let mut i: usize = 0;
    while i < cov.len()
        invariant
            i <= cov@.len(),
            t == tree.deep_view(),
            all == cov.deep_view(),
            out.deep_view() == Seq::new(i as nat, |j: int| impl_row(t, all[j].0, all[j].1)),
        decreases cov@.len() - i,
    {
        assert(all[i as int] == (cov[i as int].0@, cov[i as int].1.deep_view()));
        add_item(&mut out, row_of_platform(tree, cov[i].0.as_str(), &cov[i].1));
        assert(out.deep_view() =~= Seq::new((i + 1) as nat, |j: int| impl_row(t, all[j].0, all[j].1)));
        i = i + 1;
    }
    out
}

// ---------------------------------------------------------------------------
// Contracts
// ---------------------------------------------------------------------------

/// The headers among the first `n` whose class derives the module base: path
/// and text.
pub open spec fn contract_headers(root: Seq<char>, headers: Seq<(Seq<char>, Seq<char>)>, n: int) -> Seq<
    (Seq<char>, Seq<char>),
>
    decreases n,
{
    if n <= 0 {
        Seq::empty()
    } else {
        let done = contract_headers(root, headers, n - 1);
        let (name, content) = headers[n - 1];
        if has_base(base_classes(content), "HalModule"@) {
            done.push((full_path(root, path_join("hal/api"@, name)), content))
        } else {
            done
        }
    }
}

/// The syntax errors of the first `n` contract headers.
pub open spec fn header_errors(headers: Seq<(Seq<char>, Seq<char>)>, n: int) -> Seq<CppSyntaxErrorView>
    decreases n,
{
    if n <= 0 {
        Seq::empty()
    } else {
        let done = header_errors(headers, n - 1);
        let (ok, errors) = syntax_report(headers[n - 1].1, cpp_syntax(headers[n - 1].1));
        if ok {
            done
        } else {
            done + errors
        }
    }
}

/// The issues of the first `n` files that have the path.
pub open spec fn issues_at(files: Seq<HalDocLintFileView>, path: Seq<char>, n: int) -> Seq<
    HalDocLintIssueView,
>
    decreases n,
{
    if n <= 0 {
        Seq::empty()
    } else {
        let done = issues_at(files, path, n - 1);
        if files[n - 1].path == path {
            done + files[n - 1].issues
        } else {
            done
        }
    }
}

/// The lint issues of the first `n` contract headers.
pub open spec fn contract_lint(
    files: Seq<HalDocLintFileView>,
    headers: Seq<(Seq<char>, Seq<char>)>,
    n: int,
) -> Seq<HalDocLintIssueView>
    decreases n,
{
    if n <= 0 {
        Seq::empty()
    } else {
        contract_lint(files, headers, n - 1) + issues_at(files, headers[n - 1].0, files.len() as int)
    }
}

/// The state of a HAL project: no contract, else syntax errors, else lint
/// issues, else in order; and the state of every platform.
pub open spec fn state_of(t: ProjectTreeView) -> HalStateSnapshotView {
    let all = headers_in(t, "hal/api"@);
    let headers = contract_headers(t.root, all, all.len() as int);
    let errors = header_errors(headers, headers.len() as int).len();
    let issues = contract_lint(lint_report(t), headers, headers.len() as int).len();
    if headers.len() == 0 {
        HalStateSnapshotView {
            contract: HalContractState::NoContract,
            implementations: impl_rows(t),
            lint_issues: 0,
            syntax_errors: 0,
        }
    } else if errors > 0 {
        HalStateSnapshotView {
            contract: HalContractState::InvalidSyntax { errors: errors as usize },
            implementations: impl_rows(t),
            lint_issues: 0,
            syntax_errors: errors as usize,
        }
    } else {
        HalStateSnapshotView {
            contract: if issues > 0 {
                HalContractState::LintDirty { issues: issues as usize }
            } else {
                HalContractState::LintClean
            },
            implementations: impl_rows(t),
            lint_issues: issues as usize,
            syntax_errors: 0,
        }
    }
}

proof fn content_is_small(t: ProjectTreeView, path: Seq<char>, k: int)
    requires
        small_texts(t),
        0 <= k,
    ensures
        entry_from(t.entries, path, k) matches Some(i) ==> k <= i < t.entries.len(),
        k == 0 ==> (content_at(t, path) matches Some(c) ==> c.len() < 0x3fff_ffff),
    decreases t.entries.len() - k,
{
    if k < t.entries.len() && t.entries[k].path != path {
        content_is_small(t, path, k + 1);
    }
}

proof fn headers_are_small(t: ProjectTreeView, dir: Seq<char>, names: Seq<Seq<char>>, n: int)
    requires
        small_texts(t),
    ensures
        forall|i: int|
            0 <= i < headers_upto(t, dir, names, n).len() ==> (#[trigger] headers_upto(
                t,
                dir,
                names,
                n,
            )[i]).1.len() < 0x3fff_ffff,
    decreases n,
{
    if n > 0 {
        headers_are_small(t, dir, names, n - 1);
        content_is_small(t, path_join(dir, names[n - 1]), 0);
        let done = headers_upto(t, dir, names, n - 1);
        let now = headers_upto(t, dir, names, n);
        assert forall|i: int| 0 <= i < now.len() implies (#[trigger] now[i]).1.len() < 0x3fff_ffff by {
            if i < done.len() {
                assert(now[i] == done[i]);
            }
        }
    }
}

fn collect_errors(headers: &Vec<(String, String)>) -> (r: Vec<CppSyntaxError>)
    requires
        forall|i: int|
            0 <= i < headers.deep_view().len() ==> (#[trigger] headers.deep_view()[i]).1.len()
                < 0x3fff_ffff,
    ensures
        r.deep_view() == header_errors(headers.deep_view(), headers@.len() as int),
{
    let ghost all = headers.deep_view();
    let mut out: Vec<CppSyntaxError> = Vec::new();
    assert(out.deep_view() =~= Seq::empty());
    let mut i: usize = 0;
    while i < headers.len()
        invariant
            i <= headers@.len(),
            all == headers.deep_view(),
            forall|j: int| 0 <= j < all.len() ==> (#[trigger] all[j]).1.len() < 0x3fff_ffff,
            out.deep_view() == header_errors(all, i as int),
        decreases headers@.len() - i,
    {
        assert(all[i as int].1 == headers[i as int].1@);
        let report = cpp_syntax_check(headers[i].1.as_str());
        if !report.ok {
            add_items(&mut out, report.errors);
        }
        i = i + 1;
    }
    out
}

fn collect_issues(files: &Vec<HalDocLintFile>, headers: &Vec<(String, String)>) -> (r: Vec<
    HalDocLintIssue,
>)
    ensures
        r.deep_view() == contract_lint(
            files.deep_view(),
            headers.deep_view(),
            headers@.len() as int,
        ),
{
    let ghost all = headers.deep_view();
    let ghost list = files.deep_view();
    let mut out: Vec<HalDocLintIssue> = Vec::new();
    assert(out.deep_view() =~= Seq::empty());
    let mut i: usize = 0;
    while i < headers.len()
        invariant
            i <= headers@.len(),
            all == headers.deep_view(),
            list == files.deep_view(),
            out.deep_view() == contract_lint(list, all, i as int),
        decreases headers@.len() - i,
    {
        let path = headers[i].0.as_str();
        assert(all[i as int].0 == path@);
        let mut part: Vec<HalDocLintIssue> = Vec::new();
        assert(part.deep_view() =~= Seq::empty());
        let mut k: usize = 0;
        while k < files.len()
            invariant
                k <= files@.len(),
                list == files.deep_view(),
                part.deep_view() == issues_at(list, path@, k as int),
            decreases files@.len() - k,
        {
            if same(files[k].path.as_str(), path) {
                add_items(&mut part, copy_hal_doc_lint_issues(&files[k].issues));
            }
            k = k + 1;
        }
        add_items(&mut out, part);
        i = i + 1;
    }
    out
}

/// The state of a HAL project.
pub fn compute_hal_state(tree: &ProjectTree) -> (r: HalStateSnapshot)
    requires
        small_texts(tree.deep_view()),
    ensures
        r.deep_view() == state_of(tree.deep_view()),
{
    let ghost t = tree.deep_view();
    let lint = hal_doc_lint(tree);
    let headers = tree.headers("hal/api");
    let ghost all = headers.deep_view();
    proof {
        headers_are_small(t, "hal/api"@, names_in(t, "hal/api"@), names_in(t, "hal/api"@).len() as int);
    }
    let mut found: Vec<(String, String)> = Vec::new();
    assert(found.deep_view() =~= Seq::empty());
    let mut i: usize = 0;
    while i < headers.len()
        invariant
            i <= headers@.len(),
            all == headers.deep_view(),
            forall|j: int| 0 <= j < all.len() ==> (#[trigger] all[j]).1.len() < 0x3fff_ffff,
            forall|j: int|
                0 <= j < found.deep_view().len() ==> (#[trigger] found.deep_view()[j]).1.len()
                    < 0x3fff_ffff,
            found.deep_view() == contract_headers(tree.root@, all, i as int),
        decreases headers@.len() - i,
    {
        let name = headers[i].0.as_str();
        let content = headers[i].1.as_str();
        assert(all[i as int] == (name@, content@));
        if names_base(&extract_cpp_base_classes(content), "HalModule") {
            let path = path_from_root(tree.root.as_str(), join_path("hal/api", name).as_str());
            add_item(&mut found, (path, content.to_owned()));
        }
        i = i + 1;
    }
    let implementations = hal_impl_rows(tree);
    if found.len() == 0 {
        return HalStateSnapshot {
            contract: HalContractState::NoContract,
            implementations,
            lint_issues: 0,
            syntax_errors: 0,
        };
    }
    let errors = collect_errors(&found);
    let errors: usize = errors.len();
    if errors > 0 {
        return HalStateSnapshot {
            contract: HalContractState::InvalidSyntax { errors },
            implementations,
            lint_issues: 0,
            syntax_errors: errors,
        };
    }
    let issues = collect_issues(&lint.files, &found);
    let issues: usize = issues.len();
    HalStateSnapshot {
        contract: if issues > 0 {
            HalContractState::LintDirty { issues }
        } else {
            HalContractState::LintClean
        },
        implementations,
        lint_issues: issues,
        syntax_errors: 0,
    }
}

} // verus!
