//! Closing the gaps between a hardware contract and its implementations, in
//! rounds: a round is kept only where the drift fell and the build did not get
//! worse. The flow is a state machine: [`ContractRun::action`] says what is to be
//! done next, and [`ContractRun::advance`] takes what came of it.

use vstd::prelude::*;

use crate::coverage::{
    coverage_map, hal_platform_coverage_map, HalInterfaceCoverage, HalInterfaceCoverageView,
};
use crate::cpp::{HalContractMethod, HalContractMethodView};
use crate::modify::{
    add_once, copy_file_errors, errors_total, total, with_item, ChangeTarget, ChangeTargetView, FileErrors,
    FileErrorsView,
};
use crate::modify_code::{append_listed, listed};
use crate::project::{ProjectTree, ProjectTreeView};
use crate::text::{add_item, copy_text_option, copy_texts, decimal, number_text, same};

verus! {

/// An interface that is not fully implemented on a platform.
#[derive(Debug, PartialEq, Eq)]
pub struct Gap {
    pub platform: String,
    pub interface: String,
    /// Methods that the contract declares and nothing provides.
    pub missing: Vec<String>,
    /// Methods whose implementation no longer has the contract's signature.
    pub drifted: Vec<String>,
    /// The implementation is there and is a stub. Its methods count as missing
    /// already, so this adds nothing to the size.
    pub stub: bool,
}

/// What a [`Gap`] holds.
#[verifier::ext_equal]
pub struct GapView {
    pub platform: Seq<char>,
    pub interface: Seq<char>,
    pub missing: Seq<Seq<char>>,
    pub drifted: Seq<Seq<char>>,
    pub stub: bool,
}

impl DeepView for Gap {
    type V = GapView;

    open spec fn deep_view(&self) -> GapView {
        GapView {
            platform: self.platform@,
            interface: self.interface@,
            missing: self.missing.deep_view(),
            drifted: self.drifted.deep_view(),
            stub: self.stub,
        }
    }
}

impl Clone for Gap {
    fn clone(&self) -> (r: Self)
        ensures
            r.deep_view() == self.deep_view(),
    {
        Gap {
            platform: self.platform.clone(),
            interface: self.interface.clone(),
            missing: copy_texts(&self.missing),
            drifted: copy_texts(&self.drifted),
            stub: self.stub,
        }
    }
}

/// A copy of a list of [`Gap`] values.
pub fn copy_gaps(v: &Vec<Gap>) -> (r: Vec<Gap>)
    ensures
        r.deep_view() == v.deep_view(),
{
    let mut out: Vec<Gap> = Vec::new();
    let mut i: usize = 0;
    while i < v.len()
        invariant
            i <= v@.len(),
            out.deep_view() == v.deep_view().take(i as int),
        decreases v@.len() - i,
    {
        add_item(&mut out, v[i].clone());
        assert(v.deep_view().take(i + 1) =~= v.deep_view().take(i as int).push(v[i as int].deep_view()));
        i = i + 1;
    }
    assert(v.deep_view().take(v@.len() as int) =~= v.deep_view());
    out
}

/// Every interface that is not fully implemented.
#[derive(Debug, PartialEq, Eq)]
pub struct Gaps {
    pub open: Vec<Gap>,
}

/// What a [`Gaps`] holds.
#[verifier::ext_equal]
pub struct GapsView {
    pub open: Seq<GapView>,
}

impl DeepView for Gaps {
    type V = GapsView;

    open spec fn deep_view(&self) -> GapsView {
        GapsView {
            open: self.open.deep_view(),
        }
    }
}

impl Clone for Gaps {
    fn clone(&self) -> (r: Self)
        ensures
            r.deep_view() == self.deep_view(),
    {
        Gaps {
            open: copy_gaps(&self.open),
        }
    }
}

impl Default for Gaps {
    fn default() -> (r: Self)
        ensures
            r.deep_view() == (GapsView {
                open: Seq::empty(),
            }),
    {
        Gaps {
            open: Vec::new(),
        }
    }
}

/// A change that would close a gap.
#[derive(Debug, PartialEq, Eq)]
pub struct ContractChange {
    /// The files that it will write.
    pub files: Vec<String>,
    /// What it will do, for the backend alone to read.
    pub payload: String,
}

/// What a [`ContractChange`] holds.
#[verifier::ext_equal]
pub struct ContractChangeView {
    pub files: Seq<Seq<char>>,
    pub payload: Seq<char>,
}

impl DeepView for ContractChange {
    type V = ContractChangeView;

    open spec fn deep_view(&self) -> ContractChangeView {
        ContractChangeView {
            files: self.files.deep_view(),
            payload: self.payload@,
        }
    }
}

impl Clone for ContractChange {
    fn clone(&self) -> (r: Self)
        ensures
            r.deep_view() == self.deep_view(),
    {
        ContractChange {
            files: copy_texts(&self.files),
            payload: self.payload.clone(),
        }
    }
}

/// The measured state of a project: how much drift, and what compiles.
#[derive(Debug, PartialEq, Eq)]
pub struct ContractObs {
    pub gaps: Gaps,
    pub build_errors: Vec<FileErrors>,
}

/// What a [`ContractObs`] holds.
#[verifier::ext_equal]
pub struct ContractObsView {
    pub gaps: GapsView,
    pub build_errors: Seq<FileErrorsView>,
}

impl DeepView for ContractObs {
    type V = ContractObsView;

    open spec fn deep_view(&self) -> ContractObsView {
        ContractObsView {
            gaps: self.gaps.deep_view(),
            build_errors: self.build_errors.deep_view(),
        }
    }
}

impl Clone for ContractObs {
    fn clone(&self) -> (r: Self)
        ensures
            r.deep_view() == self.deep_view(),
    {
        ContractObs {
            gaps: self.gaps.clone(),
            build_errors: copy_file_errors(&self.build_errors),
        }
    }
}

/// What a run did.
#[derive(Debug, PartialEq, Eq)]
pub struct ModifyContractReport {
    /// Nothing is missing, nothing has drifted, and the project builds.
    pub success: bool,
    /// Rounds that applied a change.
    pub rounds: usize,
    /// Gaps that closed: interfaces that are now fully implemented and aligned.
    pub gaps_closed: Vec<String>,
    /// Gaps whose change was rolled back.
    pub gaps_reverted: Vec<String>,
    /// Gaps for which nothing was proposed.
    pub gaps_skipped: Vec<String>,
    pub drift_before: usize,
    pub drift_after: usize,
    pub build_errors_before: usize,
    pub build_errors_after: usize,
    /// What is still outstanding.
    pub gaps_remaining: Vec<String>,
    pub log: Vec<String>,
    /// Why the run could not start.
    pub error: Option<String>,
}

/// What a [`ModifyContractReport`] holds.
#[verifier::ext_equal]
pub struct ModifyContractReportView {
    pub success: bool,
    pub rounds: usize,
    pub gaps_closed: Seq<Seq<char>>,
    pub gaps_reverted: Seq<Seq<char>>,
    pub gaps_skipped: Seq<Seq<char>>,
    pub drift_before: usize,
    pub drift_after: usize,
    pub build_errors_before: usize,
    pub build_errors_after: usize,
    pub gaps_remaining: Seq<Seq<char>>,
    pub log: Seq<Seq<char>>,
    pub error: Option<Seq<char>>,
}

impl DeepView for ModifyContractReport {
    type V = ModifyContractReportView;

    open spec fn deep_view(&self) -> ModifyContractReportView {
        ModifyContractReportView {
            success: self.success,
            rounds: self.rounds,
            gaps_closed: self.gaps_closed.deep_view(),
            gaps_reverted: self.gaps_reverted.deep_view(),
            gaps_skipped: self.gaps_skipped.deep_view(),
            drift_before: self.drift_before,
            drift_after: self.drift_after,
            build_errors_before: self.build_errors_before,
            build_errors_after: self.build_errors_after,
            gaps_remaining: self.gaps_remaining.deep_view(),
            log: self.log.deep_view(),
            error: self.error.deep_view(),
        }
    }
}

impl Clone for ModifyContractReport {
    fn clone(&self) -> (r: Self)
        ensures
            r.deep_view() == self.deep_view(),
    {
        ModifyContractReport {
            success: self.success,
            rounds: self.rounds,
            gaps_closed: copy_texts(&self.gaps_closed),
            gaps_reverted: copy_texts(&self.gaps_reverted),
            gaps_skipped: copy_texts(&self.gaps_skipped),
            drift_before: self.drift_before,
            drift_after: self.drift_after,
            build_errors_before: self.build_errors_before,
            build_errors_after: self.build_errors_after,
            gaps_remaining: copy_texts(&self.gaps_remaining),
            log: copy_texts(&self.log),
            error: copy_text_option(&self.error),
        }
    }
}

/// The identity of a gap.
pub open spec fn gap_id(g: GapView) -> Seq<char> {
    g.platform + "/"@ + g.interface
}

/// How much is wrong with a gap.
pub open spec fn gap_size(g: GapView) -> nat {
    g.missing.len() + g.drifted.len()
}

/// The drift of the first `n` gaps.
pub open spec fn drift_upto(open: Seq<GapView>, n: int) -> nat
    decreases n,
{
    if n <= 0 {
        0
    } else {
        drift_upto(open, n - 1) + gap_size(open[n - 1])
    }
}

/// The whole drift.
pub open spec fn drift(g: GapsView) -> nat {
    drift_upto(g.open, g.open.len() as int)
}

proof fn drift_grows(open: Seq<GapView>, i: int, j: int)
    requires
        i <= j,
    ensures
        drift_upto(open, i) <= drift_upto(open, j),
    decreases j - i,
{
    if i < j {
        drift_grows(open, i, j - 1);
    }
}

/// Each gap is no larger than the whole drift.
pub proof fn gap_within_drift(g: GapsView, k: int)
    requires
        0 <= k < g.open.len(),
    ensures
        gap_size(g.open[k]) <= drift(g),
{
    drift_grows(g.open, k + 1, g.open.len() as int);
}

impl Gap {
    /// The identity that the log and the report name a gap by.
    pub fn id(&self) -> (r: String)
        ensures
            r@ == gap_id(self.deep_view()),
    {
        let mut s = self.platform.clone();
        s.append("/");
        s.append(self.interface.as_str());
        s
    }

    /// How much is wrong: the work that the contract still asks for.
    pub fn size(&self) -> (r: usize)
        requires
            gap_size(self.deep_view()) <= usize::MAX,
        ensures
            r == gap_size(self.deep_view()),
    {
        assert(self.missing.deep_view().len() == self.missing@.len());
        assert(self.drifted.deep_view().len() == self.drifted@.len());
        self.missing.len() + self.drifted.len()
    }
}

/// The place of the first gap of that identity, from gap `k` on.
pub open spec fn gap_from(open: Seq<GapView>, id: Seq<char>, k: int) -> Option<int>
    decreases open.len() - k,
{
    if k < 0 || k >= open.len() {
        None
    } else if gap_id(open[k]) == id {
        Some(k)
    } else {
        gap_from(open, id, k + 1)
    }
}

proof fn gap_from_bounds(open: Seq<GapView>, id: Seq<char>, k: int)
    ensures
        gap_from(open, id, k) matches Some(j) ==> k <= j < open.len() && j >= 0 && gap_id(open[j])
            == id,
    decreases open.len() - k,
{
    if 0 <= k < open.len() {
        gap_from_bounds(open, id, k + 1);
    }
}

/// The size of the gap of that identity; none counts as closed.
pub open spec fn size_of(g: GapsView, id: Seq<char>) -> nat {
    match gap_from(g.open, id, 0) {
        Some(k) => gap_size(g.open[k]),
        None => 0,
    }
}

impl Gaps {
    /// The whole drift: what "the project got worse" is measured against.
    pub fn size(&self) -> (r: usize)
        requires
            drift(self.deep_view()) <= usize::MAX,
        ensures
            r == drift(self.deep_view()),
    {
        let ghost all = self.deep_view().open;
        let mut n: usize = 0;
        let mut i: usize = 0;
        while i < self.open.len()
            invariant
                i <= self.open@.len(),
                all == self.deep_view().open,
                all == self.open.deep_view(),
                drift(self.deep_view()) <= usize::MAX,
                n == drift_upto(all, i as int),
            decreases self.open@.len() - i,
        {
            assert(all[i as int] == self.open[i as int].deep_view());
            proof {
                drift_grows(all, i + 1, all.len() as int);
            }
            n = n + self.open[i].size();
            i = i + 1;
        }
        n
    }

    /// The place of the gap of that identity.
    pub fn find(&self, id: &str) -> (r: Option<usize>)
        ensures
            (match r {
                Some(k) => gap_from(self.deep_view().open, id@, 0) == Some(k as int),
                None => gap_from(self.deep_view().open, id@, 0) is None,
            }),
    {
        let ghost all = self.deep_view().open;
        let mut i: usize = 0;
        while i < self.open.len()
            invariant
                i <= self.open@.len(),
                all == self.open.deep_view(),
                gap_from(all, id@, 0) == gap_from(all, id@, i as int),
            decreases self.open@.len() - i,
        {
            assert(all[i as int] == self.open[i as int].deep_view());
            let own = self.open[i].id();
            if same(own.as_str(), id) {
                return Some(i);
            }
            i = i + 1;
        }
        None
    }

    fn size_at(&self, id: &str) -> (r: usize)
        requires
            drift(self.deep_view()) <= usize::MAX,
        ensures
            r == size_of(self.deep_view(), id@),
    {
        match self.find(id) {
            Some(k) => {
                proof {
                    gap_from_bounds(self.deep_view().open, id@, 0);
                    gap_within_drift(self.deep_view(), k as int);
                }
                assert(self.deep_view().open[k as int] == self.open[k as int].deep_view());
                self.open[k].size()
            },
            None => 0,
        }
    }
}

/// The identities of the gaps among the first `n` in which something is wrong.
pub open spec fn ids_upto(open: Seq<GapView>, n: int) -> Seq<Seq<char>>
    decreases n,
{
    if n <= 0 {
        Seq::empty()
    } else if gap_size(open[n - 1]) > 0 {
        ids_upto(open, n - 1).push(gap_id(open[n - 1]))
    } else {
        ids_upto(open, n - 1)
    }
}

fn ids_of(g: &Gaps) -> (r: Vec<String>)
    ensures
        r.deep_view() == ids_upto(g.deep_view().open, g.deep_view().open.len() as int),
{
    let ghost all = g.deep_view().open;
    let mut out: Vec<String> = Vec::new();
    assert(out.deep_view() =~= Seq::empty());
    let mut i: usize = 0;
    while i < g.open.len()
        invariant
            i <= g.open@.len(),
            all == g.open.deep_view(),
            out.deep_view() == ids_upto(all, i as int),
        decreases g.open@.len() - i,
    {
        assert(all[i as int] == g.open[i as int].deep_view());
        if g.open[i].missing.len() > 0 || g.open[i].drifted.len() > 0 {
            add_item(&mut out, g.open[i].id());
        }
        i = i + 1;
    }
    out
}

/// Each of the first `n` texts behind a label.
pub open spec fn labelled_upto(label: Seq<char>, items: Seq<Seq<char>>, n: int) -> Seq<Seq<char>>
    decreases n,
{
    if n <= 0 {
        Seq::empty()
    } else {
        labelled_upto(label, items, n - 1).push(label + items[n - 1])
    }
}

fn append_labelled(out: &mut Vec<String>, label: &str, items: &Vec<String>)
    ensures
        final(out).deep_view() == old(out).deep_view() + labelled_upto(
            label@,
            items.deep_view(),
            items.deep_view().len() as int,
        ),
{
    let ghost start = out.deep_view();
    let ghost all = items.deep_view();
    let mut i: usize = 0;
    assert(out.deep_view() =~= start + labelled_upto(label@, all, 0));
    while i < items.len()
        invariant
            i <= items@.len(),
            all == items.deep_view(),
            out.deep_view() == start + labelled_upto(label@, all, i as int),
        decreases items@.len() - i,
    {
        let mut s = label.to_owned();
        s.append(items[i].as_str());
        add_item(out, s);
        assert(out.deep_view() =~= start + labelled_upto(label@, all, i + 1));
        i = i + 1;
    }
}

/// The target that a gap becomes.
pub open spec fn target_of(g: GapView) -> ChangeTargetView {
    ChangeTargetView {
        id: gap_id(g),
        path: "hal/api/"@ + g.interface + ".hpp"@,
        context: labelled_upto("missing: "@, g.missing, g.missing.len() as int) + labelled_upto(
            "drifted: "@,
            g.drifted,
            g.drifted.len() as int,
        ),
    }
}

/// The targets of the first `n` gaps: one that has nothing wrong is none.
pub open spec fn targets_upto(open: Seq<GapView>, n: int) -> Seq<ChangeTargetView>
    decreases n,
{
    if n <= 0 {
        Seq::empty()
    } else if gap_size(open[n - 1]) > 0 {
        targets_upto(open, n - 1).push(target_of(open[n - 1]))
    } else {
        targets_upto(open, n - 1)
    }
}

/// The targets of a measurement: its gaps, but for those with nothing wrong.
pub fn contract_targets(gaps: &Gaps) -> (r: Vec<ChangeTarget>)
    ensures
        r.deep_view() == targets_upto(gaps.deep_view().open, gaps.deep_view().open.len() as int),
{
    let ghost all = gaps.deep_view().open;
    let mut out: Vec<ChangeTarget> = Vec::new();
    assert(out.deep_view() =~= Seq::empty());
    let mut i: usize = 0;
    while i < gaps.open.len()
        invariant
            i <= gaps.open@.len(),
            all == gaps.open.deep_view(),
            out.deep_view() == targets_upto(all, i as int),
        decreases gaps.open@.len() - i,
    {
        assert(all[i as int] == gaps.open[i as int].deep_view());
        let g = &gaps.open[i];
        assert(g.deep_view().missing.len() == g.missing@.len());
        assert(g.deep_view().drifted.len() == g.drifted@.len());
        if g.missing.len() > 0 || g.drifted.len() > 0 {
            let mut context: Vec<String> = Vec::new();
            assert(context.deep_view() =~= Seq::empty());
            append_labelled(&mut context, "missing: ", &g.missing);
            append_labelled(&mut context, "drifted: ", &g.drifted);
            let mut path = "hal/api/".to_owned();
            path.append(g.interface.as_str());
            path.append(".hpp");
            let t = ChangeTarget { id: g.id(), path, context };
            assert(t.deep_view() =~= target_of(all[i as int]));
            add_item(&mut out, t);
        }
        i = i + 1;
    }
    out
}

// ---------------------------------------------------------------------------
// Reading the drift of a project
// ---------------------------------------------------------------------------

/// The names of the first `n` methods.
pub open spec fn names_upto(methods: Seq<HalContractMethodView>, n: int) -> Seq<Seq<char>>
    decreases n,
{
    if n <= 0 {
        Seq::empty()
    } else {
        names_upto(methods, n - 1).push(methods[n - 1].name)
    }
}

/// The gap of an interface that is not implemented.
pub open spec fn gap_of(platform: Seq<char>, entry: (Seq<char>, HalInterfaceCoverageView)) -> GapView {
    GapView {
        platform,
        interface: entry.0,
        missing: names_upto(entry.1.missing_sigs, entry.1.missing_sigs.len() as int),
        drifted: entry.1.drifted,
        stub: entry.1.is_stub,
    }
}

/// The gaps of the first `n` interfaces of a platform.
pub open spec fn platform_gaps(
    platform: Seq<char>,
    entries: Seq<(Seq<char>, HalInterfaceCoverageView)>,
    n: int,
) -> Seq<GapView>
    decreases n,
{
    if n <= 0 {
        Seq::empty()
    } else if entries[n - 1].1.implemented {
        platform_gaps(platform, entries, n - 1)
    } else {
        platform_gaps(platform, entries, n - 1).push(gap_of(platform, entries[n - 1]))
    }
}

/// The gaps of the first `n` platforms, or of the one that is asked for.
pub open spec fn gaps_upto(
    map: Seq<(Seq<char>, Seq<(Seq<char>, HalInterfaceCoverageView)>)>,
    platform: Seq<char>,
    n: int,
) -> Seq<GapView>
    decreases n,
{
    if n <= 0 {
        Seq::empty()
    } else if platform.len() > 0 && map[n - 1].0 != platform {
        gaps_upto(map, platform, n - 1)
    } else {
        gaps_upto(map, platform, n - 1) + platform_gaps(
            map[n - 1].0,
            map[n - 1].1,
            map[n - 1].1.len() as int,
        )
    }
}

/// The drift of a project, on one platform or, for an empty name, on all.
pub open spec fn project_gaps(t: ProjectTreeView, platform: Seq<char>) -> GapsView {
    let map = coverage_map(t);
    GapsView { open: gaps_upto(map, platform, map.len() as int) }
}

fn method_names(methods: &Vec<HalContractMethod>) -> (r: Vec<String>)
    ensures
        r.deep_view() == names_upto(methods.deep_view(), methods.deep_view().len() as int),
{
    let ghost all = methods.deep_view();
    let mut out: Vec<String> = Vec::new();
    assert(out.deep_view() =~= Seq::empty());
    let mut i: usize = 0;
    while i < methods.len()
        invariant
            i <= methods@.len(),
            all == methods.deep_view(),
            out.deep_view() == names_upto(all, i as int),
        decreases methods@.len() - i,
    {
        assert(all[i as int] == methods[i as int].deep_view());
        add_item(&mut out, methods[i].name.clone());
        i = i + 1;
    }
    out
}

fn append_platform_gaps(
    out: &mut Vec<Gap>,
    platform: &str,
    entries: &Vec<(String, HalInterfaceCoverage)>,
)
    ensures
        final(out).deep_view() == old(out).deep_view() + platform_gaps(
            platform@,
            entries.deep_view(),
            entries.deep_view().len() as int,
        ),
{
    let ghost start = out.deep_view();
    let ghost all = entries.deep_view();
    let mut i: usize = 0;
    assert(out.deep_view() =~= start + platform_gaps(platform@, all, 0));
    while i < entries.len()
        invariant
            i <= entries@.len(),
            all == entries.deep_view(),
            out.deep_view() == start + platform_gaps(platform@, all, i as int),
        decreases entries@.len() - i,
    {
        assert(all[i as int] == (entries[i as int].0@, entries[i as int].1.deep_view()));
        let cov = &entries[i].1;
        if !cov.implemented {
            let g = Gap {
                platform: platform.to_owned(),
                interface: entries[i].0.clone(),
                missing: method_names(&cov.missing_sigs),
                drifted: copy_texts(&cov.drifted),
                stub: cov.is_stub,
            };
            assert(g.deep_view() =~= gap_of(platform@, all[i as int]));
            add_item(out, g);
        }
        assert(out.deep_view() =~= start + platform_gaps(platform@, all, i + 1));
        i = i + 1;
    }
}

/// The drift of a project: every interface that its coverage does not report as
/// implemented. A stub is work as much as a missing file.
pub fn hal_gaps(tree: &ProjectTree, platform: &str) -> (r: Gaps)
    ensures
        r.deep_view() == project_gaps(tree.deep_view(), platform@),
{
    let map = hal_platform_coverage_map(tree);
    let ghost all = map.deep_view();
    let mut open: Vec<Gap> = Vec::new();
    assert(open.deep_view() =~= Seq::empty());
    let mut i: usize = 0;
    while i < map.len()
        invariant
            i <= map@.len(),
            all == map.deep_view(),
            open.deep_view() == gaps_upto(all, platform@, i as int),
        decreases map@.len() - i,
    {
        assert(all[i as int] == (map[i as int].0@, map[i as int].1.deep_view()));
        if platform.unicode_len() > 0 && !same(map[i].0.as_str(), platform) {
        } else {
            append_platform_gaps(&mut open, map[i].0.as_str(), &map[i].1);
        }
        i = i + 1;
    }
    Gaps { open }
}

// ---------------------------------------------------------------------------
// The report
// ---------------------------------------------------------------------------

/// The report of a run that has not begun.
pub open spec fn blank_contract_report() -> ModifyContractReportView {
    ModifyContractReportView {
        success: false,
        rounds: 0,
        gaps_closed: Seq::empty(),
        gaps_reverted: Seq::empty(),
        gaps_skipped: Seq::empty(),
        drift_before: 0,
        drift_after: 0,
        build_errors_before: 0,
        build_errors_after: 0,
        gaps_remaining: Seq::empty(),
        log: Seq::empty(),
        error: None,
    }
}

/// The two measurements in words.
pub open spec fn drift_line(r: ModifyContractReportView) -> Seq<char> {
    "verify: drift "@
        + decimal(r.drift_before as int)
        + " → "@
        + decimal(r.drift_after as int)
        + ", build "@
        + decimal(r.build_errors_before as int)
        + " → "@
        + decimal(r.build_errors_after as int)
        + " error(s)"@
}

/// A report in words.
pub open spec fn contract_summary(r: ModifyContractReportView) -> Seq<char> {
    (match r.error {
        Some(e) => "Modify contract: "@ + e + "\n"@,
        None => Seq::empty(),
    }) + listed("closed"@, r.gaps_closed) + listed(
        "rolled back (the project got worse)"@,
        r.gaps_reverted,
    ) + listed("skipped (nothing proposed)"@, r.gaps_skipped) + listed(
        "still outstanding"@,
        r.gaps_remaining,
    ) + drift_line(r) + "\n"@
}

impl ModifyContractReport {
    /// The report of a run that has not begun.
    pub fn new() -> (r: Self)
        ensures
            r.deep_view() == blank_contract_report(),
    {
        let r = ModifyContractReport {
            success: false,
            rounds: 0,
            gaps_closed: Vec::new(),
            gaps_reverted: Vec::new(),
            gaps_skipped: Vec::new(),
            drift_before: 0,
            drift_after: 0,
            build_errors_before: 0,
            build_errors_after: 0,
            gaps_remaining: Vec::new(),
            log: Vec::new(),
            error: None,
        };
        assert(r.gaps_closed.deep_view() =~= Seq::empty());
        assert(r.gaps_reverted.deep_view() =~= Seq::empty());
        assert(r.gaps_skipped.deep_view() =~= Seq::empty());
        assert(r.gaps_remaining.deep_view() =~= Seq::empty());
        assert(r.log.deep_view() =~= Seq::empty());
        r
    }

    fn drift_text(&self) -> (r: String)
        ensures
            r@ == drift_line(self.deep_view()),
    {
        let d0 = number_text(self.drift_before);
        let d1 = number_text(self.drift_after);
        let b0 = number_text(self.build_errors_before);
        let b1 = number_text(self.build_errors_after);
        let mut s = "verify: drift ".to_owned();
        s.append(d0.as_str());
        s.append(" → ");
        s.append(d1.as_str());
        s.append(", build ");
        s.append(b0.as_str());
        s.append(" → ");
        s.append(b1.as_str());
        s.append(" error(s)");
        s
    }

    /// The report in words.
    pub fn summary(&self) -> (r: String)
        ensures
            r@ == contract_summary(self.deep_view()),
    {
        let ghost v = self.deep_view();
        let mut out = String::new();
        assert(out@ =~= Seq::empty());
        if let Some(error) = &self.error {
            out.append("Modify contract: ");
            out.append(error.as_str());
            out.append("\n");
        }
        let ghost head = match v.error {
            Some(e) => "Modify contract: "@ + e + "\n"@,
            None => Seq::empty(),
        };
        assert(out@ =~= head);
        append_listed(&mut out, "closed", &self.gaps_closed);
        append_listed(&mut out, "rolled back (the project got worse)", &self.gaps_reverted);
        append_listed(&mut out, "skipped (nothing proposed)", &self.gaps_skipped);
        append_listed(&mut out, "still outstanding", &self.gaps_remaining);
        let line = self.drift_text();
        out.append(line.as_str());
        out.append("\n");
        out
    }
}

// ---------------------------------------------------------------------------
// The run
// ---------------------------------------------------------------------------

/// Where a run stands.
#[derive(Debug, Clone, Copy, PartialEq, Eq, Structural)]
pub enum ContractPhase {
    /// It waits for the first measurement.
    Seeding,
    /// It waits for a measurement before a round, because files were put back.
    Baseline,
    /// It waits for the change that closes a gap.
    Planning,
    /// It waits for the change to be applied.
    Applying,
    /// It waits for the measurement of the round.
    Verdict,
    /// It puts back what changes wrote, one after the other.
    Restoring,
    /// It waits for a measurement of what was put back.
    Recheck,
    /// The report is complete.
    Done,
}

/// The state of a run.
#[derive(Debug, PartialEq, Eq)]
pub struct ContractRun {
    pub phase: ContractPhase,
    /// A bound on the rounds.
    pub max_rounds: usize,
    /// Rounds that applied a change.
    pub rounds: usize,
    /// The gaps of this round.
    pub targets: Vec<String>,
    /// The target, or the change to put back, that is next.
    pub next: usize,
    /// The gaps for which a change was applied in this round.
    pub applied: Vec<String>,
    /// The gaps whose change is put back.
    pub undo: Vec<String>,
    /// What the change for each gap writes.
    pub files: Vec<(String, Vec<String>)>,
    /// What each file held before the run; `None` where there was none.
    pub backups: Vec<(String, Option<Vec<u8>>)>,
    /// The change that is applied next.
    pub payload: String,
    /// Files were put back since the last measurement.
    pub stale: bool,
    /// The first measurement.
    pub before: ContractObs,
    /// The measurement before this round.
    pub start: ContractObs,
    /// The latest measurement.
    pub current: ContractObs,
    pub report: ModifyContractReport,
}

/// What a [`ContractRun`] holds.
#[verifier::ext_equal]
pub struct ContractRunView {
    pub phase: ContractPhase,
    pub max_rounds: usize,
    pub rounds: usize,
    pub targets: Seq<Seq<char>>,
    pub next: usize,
    pub applied: Seq<Seq<char>>,
    pub undo: Seq<Seq<char>>,
    pub files: Seq<(Seq<char>, Seq<Seq<char>>)>,
    pub backups: Seq<(Seq<char>, Option<Seq<u8>>)>,
    pub payload: Seq<char>,
    pub stale: bool,
    pub before: ContractObsView,
    pub start: ContractObsView,
    pub current: ContractObsView,
    pub report: ModifyContractReportView,
}

impl DeepView for ContractRun {
    type V = ContractRunView;

    open spec fn deep_view(&self) -> ContractRunView {
        ContractRunView {
            phase: self.phase,
            max_rounds: self.max_rounds,
            rounds: self.rounds,
            targets: self.targets.deep_view(),
            next: self.next,
            applied: self.applied.deep_view(),
            undo: self.undo.deep_view(),
            files: self.files.deep_view(),
            backups: self.backups.deep_view(),
            payload: self.payload@,
            stale: self.stale,
            before: self.before.deep_view(),
            start: self.start.deep_view(),
            current: self.current.deep_view(),
            report: self.report.deep_view(),
        }
    }
}

/// What a run wants done next.
#[derive(Debug, PartialEq, Eq)]
pub enum ContractAction {
    /// Read the drift and build the project.
    Measure,
    /// Ask for a change that closes the gap.
    Plan { gap: Gap },
    /// Read the files, then apply the change.
    Apply { payload: String, back_up: Vec<String> },
    /// Put each file back: to what it held, or away where there was none.
    Restore { files: Vec<(String, Option<Vec<u8>>)> },
    /// The report is complete.
    Finish,
}

/// What a [`ContractAction`] holds.
#[verifier::ext_equal]
pub enum ContractActionView {
    Measure,
    Plan { gap: GapView },
    Apply { payload: Seq<char>, back_up: Seq<Seq<char>> },
    Restore { files: Seq<(Seq<char>, Option<Seq<u8>>)> },
    Finish,
}

impl DeepView for ContractAction {
    type V = ContractActionView;

    open spec fn deep_view(&self) -> ContractActionView {
        match self {
            ContractAction::Measure => ContractActionView::Measure,
            ContractAction::Plan { gap } => ContractActionView::Plan { gap: gap.deep_view() },
            ContractAction::Apply { payload, back_up } => ContractActionView::Apply {
                payload: payload@,
                back_up: back_up.deep_view(),
            },
            ContractAction::Restore { files } => ContractActionView::Restore {
                files: files.deep_view(),
            },
            ContractAction::Finish => ContractActionView::Finish,
        }
    }
}

/// What came of an action.
#[derive(Debug, PartialEq, Eq)]
pub enum ContractEvent {
    /// A measurement.
    Measured(ContractObs),
    /// The change, or that there is none.
    Planned(Option<ContractChange>),
    /// What the files held before, `None` for one that was not there, and whether
    /// the change was applied.
    Applied { originals: Vec<(String, Option<Vec<u8>>)>, outcome: Result<(), String> },
    /// The files were put back.
    Restored,
}

/// What a [`ContractEvent`] holds.
#[verifier::ext_equal]
pub enum ContractEventView {
    Measured(ContractObsView),
    Planned(Option<ContractChangeView>),
    Applied { originals: Seq<(Seq<char>, Option<Seq<u8>>)>, done: bool },
    Restored,
}

impl DeepView for ContractEvent {
    type V = ContractEventView;

    open spec fn deep_view(&self) -> ContractEventView {
        match self {
            ContractEvent::Measured(obs) => ContractEventView::Measured(obs.deep_view()),
            ContractEvent::Planned(change) => ContractEventView::Planned(change.deep_view()),
            ContractEvent::Applied { originals, outcome } => ContractEventView::Applied {
                originals: originals.deep_view(),
                done: outcome is Ok,
            },
            ContractEvent::Restored => ContractEventView::Restored,
        }
    }
}

impl ContractObsView {
    /// Drift and errors can be counted.
    pub open spec fn countable(self) -> bool {
        drift(self.gaps) <= usize::MAX && errors_total(self.build_errors) <= usize::MAX
    }

    /// Nothing is missing, nothing has drifted, and the project builds.
    pub open spec fn clean(self) -> bool {
        drift(self.gaps) == 0 && errors_total(self.build_errors) == 0
    }
}

impl ContractObs {
    /// Whether nothing is missing, nothing has drifted, and the project builds.
    pub fn is_clean(&self) -> (r: bool)
        requires
            self.deep_view().countable(),
        ensures
            r == self.deep_view().clean(),
    {
        self.gaps.size() == 0 && total(&self.build_errors) == 0
    }
}

/// The round made the project worse.
pub open spec fn contract_rejected(before: ContractObsView, after: ContractObsView) -> bool {
    drift(after.gaps) > drift(before.gaps) || errors_total(after.build_errors) > errors_total(
        before.build_errors,
    )
}

/// The change for the gap made it smaller.
pub open spec fn shrank(before: ContractObsView, after: ContractObsView, id: Seq<char>) -> bool {
    size_of(after.gaps, id) < size_of(before.gaps, id)
}

/// The change for the gap closed it: nothing of it is left.
pub open spec fn is_closed(before: ContractObsView, after: ContractObsView, id: Seq<char>) -> bool {
    shrank(before, after, id) && size_of(after.gaps, id) == 0
}

/// What the log says of a round that is rolled back.
pub open spec fn round_note(before: ContractObsView, after: ContractObsView) -> Seq<char> {
    "rolled back: the round made the project worse — drift "@
        + decimal(drift(before.gaps) as int)
        + " → "@
        + decimal(drift(after.gaps) as int)
        + ", build "@
        + decimal(errors_total(before.build_errors) as int)
        + " → "@
        + decimal(errors_total(after.build_errors) as int)
        + " error(s)"@
}

/// Decides over a round: whether it made the project worse.
pub fn reject_contract_round(before: &ContractObs, after: &ContractObs) -> (r: bool)
    requires
        before.deep_view().countable(),
        after.deep_view().countable(),
    ensures
        r == contract_rejected(before.deep_view(), after.deep_view()),
{
    after.gaps.size() > before.gaps.size() || total(&after.build_errors) > total(
        &before.build_errors,
    )
}

/// Decides over one change of a round: whether its gap shrank.
pub fn accept_change(before: &ContractObs, after: &ContractObs, id: &str) -> (r: bool)
    requires
        before.deep_view().countable(),
        after.deep_view().countable(),
    ensures
        r == shrank(before.deep_view(), after.deep_view(), id@),
{
    after.gaps.size_at(id) < before.gaps.size_at(id)
}

fn note_round(before: &ContractObs, after: &ContractObs) -> (r: String)
    requires
        before.deep_view().countable(),
        after.deep_view().countable(),
    ensures
        r@ == round_note(before.deep_view(), after.deep_view()),
{
    let d0 = number_text(before.gaps.size());
    let d1 = number_text(after.gaps.size());
    let b0 = number_text(total(&before.build_errors));
    let b1 = number_text(total(&after.build_errors));
    let mut s = "rolled back: the round made the project worse — drift ".to_owned();
    s.append(d0.as_str());
    s.append(" → ");
    s.append(d1.as_str());
    s.append(", build ");
    s.append(b0.as_str());
    s.append(" → ");
    s.append(b1.as_str());
    s.append(" error(s)");
    s
}

/// The files that the last entry for the gap, of the first `n`, names.
pub open spec fn files_upto(
    files: Seq<(Seq<char>, Seq<Seq<char>>)>,
    id: Seq<char>,
    n: int,
) -> Seq<Seq<char>>
    decreases n,
{
    if n <= 0 {
        Seq::empty()
    } else if files[n - 1].0 == id {
        files[n - 1].1
    } else {
        files_upto(files, id, n - 1)
    }
}

fn files_of(files: &Vec<(String, Vec<String>)>, id: &str) -> (r: Vec<String>)
    ensures
        r.deep_view() == files_upto(files.deep_view(), id@, files.deep_view().len() as int),
{
    let ghost all = files.deep_view();
    let mut i: usize = files.len();
    while i > 0
        invariant
            i <= files@.len(),
            all == files.deep_view(),
            files_upto(all, id@, i as int) == files_upto(all, id@, all.len() as int),
        decreases i,
    {
        assert(all[i - 1] == (files[i - 1].0@, files[i - 1].1.deep_view()));
        if same(files[i - 1].0.as_str(), id) {
            return copy_texts(&files[i - 1].1);
        }
        i = i - 1;
    }
    let none: Vec<String> = Vec::new();
    assert(none.deep_view() =~= Seq::empty());
    none
}

/// What the file held before the run, from entry `k` on: `None` where nothing
/// was read, `Some(None)` where there was no file.
pub open spec fn original_from(
    backups: Seq<(Seq<char>, Option<Seq<u8>>)>,
    path: Seq<char>,
    k: int,
) -> Option<Option<Seq<u8>>>
    decreases backups.len() - k,
{
    if k < 0 || k >= backups.len() {
        None
    } else if backups[k].0 == path {
        Some(backups[k].1)
    } else {
        original_from(backups, path, k + 1)
    }
}

fn copy_bytes(v: &Option<Vec<u8>>) -> (r: Option<Vec<u8>>)
    ensures
        r.deep_view() == v.deep_view(),
{
    match v {
        Some(bytes) => {
            let copy = bytes.clone();
            assert(copy.deep_view() =~= bytes.deep_view());
            Some(copy)
        },
        None => None,
    }
}

fn original_of(backups: &Vec<(String, Option<Vec<u8>>)>, path: &str) -> (r: Option<Option<Vec<u8>>>)
    ensures
        r.deep_view() == original_from(backups.deep_view(), path@, 0),
{
    let ghost all = backups.deep_view();
    let mut i: usize = 0;
    while i < backups.len()
        invariant
            i <= backups@.len(),
            all == backups.deep_view(),
            original_from(all, path@, 0) == original_from(all, path@, i as int),
        decreases backups@.len() - i,
    {
        assert(all[i as int] == (backups[i as int].0@, backups[i as int].1.deep_view()));
        if same(backups[i].0.as_str(), path) {
            return Some(copy_bytes(&backups[i].1));
        }
        i = i + 1;
    }
    None
}

/// The backups with those of the first `n` originals that are new.
pub open spec fn kept_upto(
    backups: Seq<(Seq<char>, Option<Seq<u8>>)>,
    originals: Seq<(Seq<char>, Option<Seq<u8>>)>,
    n: int,
) -> Seq<(Seq<char>, Option<Seq<u8>>)>
    decreases n,
{
    if n <= 0 {
        backups
    } else {
        let kept = kept_upto(backups, originals, n - 1);
        if original_from(kept, originals[n - 1].0, 0) is None {
            kept.push(originals[n - 1])
        } else {
            kept
        }
    }
}

fn keep_originals(
    backups: &mut Vec<(String, Option<Vec<u8>>)>,
    originals: &Vec<(String, Option<Vec<u8>>)>,
)
    ensures
        final(backups).deep_view() == kept_upto(
            old(backups).deep_view(),
            originals.deep_view(),
            originals.deep_view().len() as int,
        ),
{
    let ghost start = backups.deep_view();
    let ghost all = originals.deep_view();
    let mut i: usize = 0;
    while i < originals.len()
        invariant
            i <= originals@.len(),
            all == originals.deep_view(),
            backups.deep_view() == kept_upto(start, all, i as int),
        decreases originals@.len() - i,
    {
        assert(all[i as int] == (originals[i as int].0@, originals[i as int].1.deep_view()));
        let known = match original_of(backups, originals[i].0.as_str()) {
            Some(_) => true,
            None => false,
        };
        if !known {
            add_item(backups, (originals[i].0.clone(), copy_bytes(&originals[i].1)));
        }
        i = i + 1;
    }
}

/// Those of the first `n` files that were not read yet.
pub open spec fn unread_upto(
    backups: Seq<(Seq<char>, Option<Seq<u8>>)>,
    files: Seq<Seq<char>>,
    n: int,
) -> Seq<Seq<char>>
    decreases n,
{
    if n <= 0 {
        Seq::empty()
    } else if original_from(backups, files[n - 1], 0) is None {
        unread_upto(backups, files, n - 1).push(files[n - 1])
    } else {
        unread_upto(backups, files, n - 1)
    }
}

fn unread(backups: &Vec<(String, Option<Vec<u8>>)>, files: &Vec<String>) -> (r: Vec<String>)
    ensures
        r.deep_view() == unread_upto(
            backups.deep_view(),
            files.deep_view(),
            files.deep_view().len() as int,
        ),
{
    let ghost all = files.deep_view();
    let mut out: Vec<String> = Vec::new();
    assert(out.deep_view() =~= Seq::empty());
    let mut i: usize = 0;
    while i < files.len()
        invariant
            i <= files@.len(),
            all == files.deep_view(),
            out.deep_view() == unread_upto(backups.deep_view(), all, i as int),
        decreases files@.len() - i,
    {
        assert(all[i as int] == files[i as int]@);
        let known = match original_of(backups, files[i].as_str()) {
            Some(_) => true,
            None => false,
        };
        if !known {
            add_item(&mut out, files[i].clone());
        }
        i = i + 1;
    }
    out
}

/// What each of the first `n` files is put back to.
pub open spec fn restores_upto(
    backups: Seq<(Seq<char>, Option<Seq<u8>>)>,
    files: Seq<Seq<char>>,
    n: int,
) -> Seq<(Seq<char>, Option<Seq<u8>>)>
    decreases n,
{
    if n <= 0 {
        Seq::empty()
    } else {
        match original_from(backups, files[n - 1], 0) {
            Some(original) => restores_upto(backups, files, n - 1).push((files[n - 1], original)),
            None => restores_upto(backups, files, n - 1),
        }
    }
}

fn restores(backups: &Vec<(String, Option<Vec<u8>>)>, files: &Vec<String>) -> (r: Vec<
    (String, Option<Vec<u8>>),
>)
    ensures
        r.deep_view() == restores_upto(
            backups.deep_view(),
            files.deep_view(),
            files.deep_view().len() as int,
        ),
{
    let ghost all = files.deep_view();
    let mut out: Vec<(String, Option<Vec<u8>>)> = Vec::new();
    assert(out.deep_view() =~= Seq::empty());
    let mut i: usize = 0;
    while i < files.len()
        invariant
            i <= files@.len(),
            all == files.deep_view(),
            out.deep_view() == restores_upto(backups.deep_view(), all, i as int),
        decreases files@.len() - i,
    {
        assert(all[i as int] == files[i as int]@);
        if let Some(original) = original_of(backups, files[i].as_str()) {
            add_item(&mut out, (files[i].clone(), original));
        }
        i = i + 1;
    }
    out
}

/// The closed gaps with those added that the first `n` applied changes closed.
pub open spec fn closed_upto(
    before: ContractObsView,
    after: ContractObsView,
    applied: Seq<Seq<char>>,
    closed: Seq<Seq<char>>,
    n: int,
) -> Seq<Seq<char>>
    decreases n,
{
    if n <= 0 {
        closed
    } else if is_closed(before, after, applied[n - 1]) {
        with_item(closed_upto(before, after, applied, closed, n - 1), applied[n - 1])
    } else {
        closed_upto(before, after, applied, closed, n - 1)
    }
}

/// Those of the first `n` applied changes whose gap did not shrink.
pub open spec fn unshrunk_upto(
    before: ContractObsView,
    after: ContractObsView,
    applied: Seq<Seq<char>>,
    n: int,
) -> Seq<Seq<char>>
    decreases n,
{
    if n <= 0 {
        Seq::empty()
    } else if shrank(before, after, applied[n - 1]) {
        unshrunk_upto(before, after, applied, n - 1)
    } else {
        unshrunk_upto(before, after, applied, n - 1).push(applied[n - 1])
    }
}

/// The run with its report completed.
pub open spec fn contract_done(s: ContractRunView) -> ContractRunView {
    let report = ModifyContractReportView {
        rounds: s.rounds,
        drift_before: drift(s.before.gaps) as usize,
        drift_after: drift(s.current.gaps) as usize,
        build_errors_before: errors_total(s.before.build_errors) as usize,
        build_errors_after: errors_total(s.current.build_errors) as usize,
        gaps_remaining: ids_upto(s.current.gaps.open, s.current.gaps.open.len() as int),
        success: s.current.clean() && s.report.error is None,
        ..s.report
    };
    ContractRunView {
        phase: ContractPhase::Done,
        report: ModifyContractReportView { log: report.log.push(drift_line(report)), ..report },
        ..s
    }
}

/// The run at the end of its rounds: what was put back is measured once more.
pub open spec fn wound_up(s: ContractRunView) -> ContractRunView {
    if s.stale {
        ContractRunView { phase: ContractPhase::Recheck, stale: false, ..s }
    } else {
        contract_done(s)
    }
}

/// The identities of targets.
pub open spec fn target_ids(targets: Seq<ChangeTargetView>, n: int) -> Seq<Seq<char>>
    decreases n,
{
    if n <= 0 {
        Seq::empty()
    } else {
        target_ids(targets, n - 1).push(targets[n - 1].id)
    }
}

/// The gaps that a round works on.
pub open spec fn round_ids(g: GapsView) -> Seq<Seq<char>> {
    let targets = targets_upto(g.open, g.open.len() as int);
    target_ids(targets, targets.len() as int)
}

/// The run at the end of a round's changes.
pub open spec fn round_end(s: ContractRunView) -> ContractRunView {
    if s.applied.len() == 0 {
        wound_up(s)
    } else {
        ContractRunView { phase: ContractPhase::Verdict, rounds: (s.rounds + 1) as usize, ..s }
    }
}

/// The run at its next target that still is a gap; the others are skipped.
pub open spec fn at_target(s: ContractRunView) -> ContractRunView
    decreases s.targets.len() - s.next,
{
    if s.next >= s.targets.len() || s.next == usize::MAX {
        round_end(s)
    } else if gap_from(s.current.gaps.open, s.targets[s.next as int], 0) is Some {
        ContractRunView { phase: ContractPhase::Planning, ..s }
    } else {
        at_target(skip_target(s))
    }
}

/// The run with its target skipped.
pub open spec fn skip_target(s: ContractRunView) -> ContractRunView {
    ContractRunView {
        next: (s.next + 1) as usize,
        report: ModifyContractReportView {
            gaps_skipped: s.report.gaps_skipped.push(s.targets[s.next as int]),
            ..s.report
        },
        ..s
    }
}

/// The run at the start of a round.
pub open spec fn round_start(s: ContractRunView) -> ContractRunView {
    let ids = round_ids(s.current.gaps);
    if s.rounds >= s.max_rounds || ids.len() == 0 {
        wound_up(s)
    } else {
        let fresh = ContractRunView { targets: ids, next: 0, applied: Seq::empty(), ..s };
        if s.stale {
            ContractRunView { phase: ContractPhase::Baseline, stale: false, ..fresh }
        } else {
            at_target(ContractRunView { start: s.current, ..fresh })
        }
    }
}

/// The run with the change that was proposed.
pub open spec fn with_change(s: ContractRunView, change: ContractChangeView) -> ContractRunView {
    ContractRunView {
        phase: ContractPhase::Applying,
        files: s.files.push((s.targets[s.next as int], change.files)),
        payload: change.payload,
        ..s
    }
}

/// The run after a change was applied, or was not.
pub open spec fn with_applied(
    s: ContractRunView,
    originals: Seq<(Seq<char>, Option<Seq<u8>>)>,
    done: bool,
) -> ContractRunView {
    at_target(
        ContractRunView {
            next: (s.next + 1) as usize,
            backups: kept_upto(s.backups, originals, originals.len() as int),
            applied: if done {
                s.applied.push(s.targets[s.next as int])
            } else {
                s.applied
            },
            ..s
        },
    )
}

/// The run after a round was measured: rolled back as a whole where it made the
/// project worse, and by gap where a gap did not shrink.
pub open spec fn with_round(s: ContractRunView, obs: ContractObsView) -> ContractRunView {
    let n = s.applied.len() as int;
    let measured = ContractRunView { current: obs, next: 0, ..s };
    if contract_rejected(s.start, obs) {
        ContractRunView {
            phase: ContractPhase::Restoring,
            undo: s.applied,
            report: ModifyContractReportView {
                log: s.report.log.push(round_note(s.start, obs)),
                ..s.report
            },
            ..measured
        }
    } else {
        let undo = unshrunk_upto(s.start, obs, s.applied, n);
        let judged = ContractRunView {
            undo,
            report: ModifyContractReportView {
                gaps_closed: closed_upto(s.start, obs, s.applied, s.report.gaps_closed, n),
                ..s.report
            },
            ..measured
        };
        if undo.len() == 0 {
            round_start(judged)
        } else {
            ContractRunView { phase: ContractPhase::Restoring, ..judged }
        }
    }
}

/// The run after the files of a change were put back. A round that kept nothing
/// is the last.
pub open spec fn with_undone(s: ContractRunView) -> ContractRunView {
    let done = ContractRunView {
        next: (s.next + 1) as usize,
        stale: true,
        report: ModifyContractReportView {
            gaps_reverted: with_item(s.report.gaps_reverted, s.undo[s.next as int]),
            ..s.report
        },
        ..s
    };
    if s.next + 1 < s.undo.len() {
        done
    } else if s.undo.len() < s.applied.len() {
        round_start(done)
    } else {
        wound_up(done)
    }
}

/// The state that a run goes to: an event that it does not wait for changes
/// nothing.
pub open spec fn contract_step(s: ContractRunView, event: ContractEventView) -> ContractRunView {
    match (s.phase, event) {
        (ContractPhase::Seeding, ContractEventView::Measured(obs)) => round_start(
            ContractRunView { before: obs, current: obs, ..s },
        ),
        (ContractPhase::Baseline, ContractEventView::Measured(obs)) => at_target(
            ContractRunView { start: obs, current: obs, ..s },
        ),
        (ContractPhase::Planning, ContractEventView::Planned(None)) => at_target(skip_target(s)),
        (ContractPhase::Planning, ContractEventView::Planned(Some(change))) => with_change(s, change),
        (ContractPhase::Applying, ContractEventView::Applied { originals, done }) => with_applied(
            s,
            originals,
            done,
        ),
        (ContractPhase::Verdict, ContractEventView::Measured(obs)) => with_round(s, obs),
        (ContractPhase::Restoring, ContractEventView::Restored) => with_undone(s),
        (ContractPhase::Recheck, ContractEventView::Measured(obs)) => contract_done(
            ContractRunView { current: obs, ..s },
        ),
        _ => s,
    }
}

/// What a run wants done next.
pub open spec fn contract_action(s: ContractRunView) -> ContractActionView {
    match s.phase {
        ContractPhase::Seeding | ContractPhase::Baseline | ContractPhase::Verdict
        | ContractPhase::Recheck => ContractActionView::Measure,
        ContractPhase::Planning => ContractActionView::Plan {
            gap: s.current.gaps.open[gap_from(s.current.gaps.open, s.targets[s.next as int], 0)->0],
        },
        ContractPhase::Applying => {
            let files = files_upto(s.files, s.targets[s.next as int], s.files.len() as int);
            ContractActionView::Apply {
                payload: s.payload,
                back_up: unread_upto(s.backups, files, files.len() as int),
            }
        },
        ContractPhase::Restoring => {
            let files = files_upto(s.files, s.undo[s.next as int], s.files.len() as int);
            ContractActionView::Restore {
                files: restores_upto(s.backups, files, files.len() as int),
            }
        },
        ContractPhase::Done => ContractActionView::Finish,
    }
}

impl ContractRunView {
    /// What holds in every state of a run.
    pub open spec fn wf(self) -> bool {
        &&& self.before.countable()
        &&& self.start.countable()
        &&& self.current.countable()
        &&& self.rounds <= self.max_rounds
        &&& self.targets.len() <= usize::MAX
        &&& self.undo.len() <= usize::MAX
        &&& self.phase == ContractPhase::Planning ==> {
            &&& self.rounds < self.max_rounds
            &&& self.next < self.targets.len()
            &&& gap_from(self.current.gaps.open, self.targets[self.next as int], 0) is Some
        }
        &&& self.phase == ContractPhase::Applying ==> {
            &&& self.rounds < self.max_rounds
            &&& self.next < self.targets.len()
        }
        &&& self.phase == ContractPhase::Baseline ==> self.rounds < self.max_rounds
        &&& self.phase == ContractPhase::Verdict ==> self.applied.len() > 0
        &&& self.phase == ContractPhase::Restoring ==> self.next < self.undo.len()
    }
}

/// The event can be taken in: what it measured can be counted.
pub open spec fn takeable(event: ContractEventView) -> bool {
    event matches ContractEventView::Measured(obs) ==> obs.countable()
}

/// Nothing measured.
pub open spec fn no_drift() -> ContractObsView {
    ContractObsView { gaps: GapsView { open: Seq::empty() }, build_errors: Seq::empty() }
}

fn unmeasured() -> (r: ContractObs)
    ensures
        r.deep_view() == no_drift(),
{
    let r = ContractObs { gaps: Gaps { open: Vec::new() }, build_errors: Vec::new() };
    assert(r.gaps.open.deep_view() =~= Seq::empty());
    assert(r.build_errors.deep_view() =~= Seq::empty());
    r
}

/// A run that waits for its first measurement.
pub open spec fn contract_start(max_rounds: usize) -> ContractRunView {
    ContractRunView {
        phase: ContractPhase::Seeding,
        max_rounds,
        rounds: 0,
        targets: Seq::empty(),
        next: 0,
        applied: Seq::empty(),
        undo: Seq::empty(),
        files: Seq::empty(),
        backups: Seq::empty(),
        payload: Seq::empty(),
        stale: false,
        before: no_drift(),
        start: no_drift(),
        current: no_drift(),
        report: blank_contract_report(),
    }
}

fn ids_of_targets(targets: &Vec<ChangeTarget>) -> (r: Vec<String>)
    ensures
        r.deep_view() == target_ids(targets.deep_view(), targets.deep_view().len() as int),
{
    let ghost all = targets.deep_view();
    let mut out: Vec<String> = Vec::new();
    assert(out.deep_view() =~= Seq::empty());
    let mut i: usize = 0;
    while i < targets.len()
        invariant
            i <= targets@.len(),
            all == targets.deep_view(),
            out.deep_view() == target_ids(all, i as int),
        decreases targets@.len() - i,
    {
        assert(all[i as int] == targets[i as int].deep_view());
        add_item(&mut out, targets[i].id.clone());
        i = i + 1;
    }
    out
}

impl ContractRun {
    /// A run that waits for its first measurement.
    pub fn new(max_rounds: usize) -> (r: Self)
        ensures
            r.deep_view() == contract_start(max_rounds),
            r.deep_view().wf(),
    {
        let payload = String::new();
        assert(payload@ =~= Seq::empty());
        let r = ContractRun {
            phase: ContractPhase::Seeding,
            max_rounds,
            rounds: 0,
            targets: Vec::new(),
            next: 0,
            applied: Vec::new(),
            undo: Vec::new(),
            files: Vec::new(),
            backups: Vec::new(),
            payload,
            stale: false,
            before: unmeasured(),
            start: unmeasured(),
            current: unmeasured(),
            report: ModifyContractReport::new(),
        };
        assert(r.targets.deep_view() =~= Seq::empty());
        assert(r.applied.deep_view() =~= Seq::empty());
        assert(r.undo.deep_view() =~= Seq::empty());
        assert(r.files.deep_view() =~= Seq::empty());
        assert(r.backups.deep_view() =~= Seq::empty());
        r
    }

    /// What is to be done next.
    pub fn action(&self) -> (r: ContractAction)
        requires
            self.deep_view().wf(),
        ensures
            r.deep_view() == contract_action(self.deep_view()),
    {
        match self.phase {
            ContractPhase::Seeding | ContractPhase::Baseline | ContractPhase::Verdict
            | ContractPhase::Recheck => ContractAction::Measure,
            ContractPhase::Planning => {
                assert(self.targets.deep_view().len() == self.targets@.len());
                assert(self.targets.deep_view()[self.next as int] == self.targets[self.next as int]@);
                match self.current.gaps.find(self.targets[self.next].as_str()) {
                    Some(k) => {
                        proof {
                            gap_from_bounds(
                                self.current.gaps.deep_view().open,
                                self.targets[self.next as int]@,
                                0,
                            );
                        }
                        assert(self.current.gaps.deep_view().open[k as int]
                            == self.current.gaps.open[k as int].deep_view());
                        ContractAction::Plan { gap: self.current.gaps.open[k].clone() }
                    },
                    None => ContractAction::Measure,
                }
            },
            ContractPhase::Applying => {
                assert(self.targets.deep_view().len() == self.targets@.len());
                let files = files_of(&self.files, self.targets[self.next].as_str());
                ContractAction::Apply {
                    payload: self.payload.clone(),
                    back_up: unread(&self.backups, &files),
                }
            },
            ContractPhase::Restoring => {
                assert(self.undo.deep_view().len() == self.undo@.len());
                let files = files_of(&self.files, self.undo[self.next].as_str());
                ContractAction::Restore { files: restores(&self.backups, &files) }
            },
            ContractPhase::Done => ContractAction::Finish,
        }
    }

    fn complete(self) -> (r: Self)
        requires
            self.deep_view().wf(),
        ensures
            r.deep_view() == contract_done(self.deep_view()),
            r.deep_view().wf(),
    {
        let mut run = self;
        run.phase = ContractPhase::Done;
        run.report.rounds = run.rounds;
        run.report.drift_before = run.before.gaps.size();
        run.report.drift_after = run.current.gaps.size();
        run.report.build_errors_before = total(&run.before.build_errors);
        run.report.build_errors_after = total(&run.current.build_errors);
        run.report.gaps_remaining = ids_of(&run.current.gaps);
        let no_error = match &run.report.error {
            Some(_) => false,
            None => true,
        };
        run.report.success = run.current.is_clean() && no_error;
        let line = run.report.drift_text();
        add_item(&mut run.report.log, line);
        run
    }

    fn wind_up(self) -> (r: Self)
        requires
            self.deep_view().wf(),
        ensures
            r.deep_view() == wound_up(self.deep_view()),
            r.deep_view().wf(),
    {
        let mut run = self;
        if run.stale {
            run.phase = ContractPhase::Recheck;
            run.stale = false;
            run
        } else {
            run.complete()
        }
    }

    fn seek(self) -> (r: Self)
        requires
            (ContractRunView { phase: ContractPhase::Seeding, ..self.deep_view() }).wf(),
            self.rounds < self.max_rounds,
        ensures
            r.deep_view() == at_target(self.deep_view()),
            r.deep_view().wf(),
    {
        let ghost s = self.deep_view();
        let mut run = self;
        assert(run.targets.deep_view().len() == run.targets@.len());
        while run.next < run.targets.len()
            invariant
                (ContractRunView { phase: ContractPhase::Seeding, ..run.deep_view() }).wf(),
                run.rounds < run.max_rounds,
                run.targets.deep_view().len() == run.targets@.len(),
                s == self.deep_view(),
                at_target(run.deep_view()) == at_target(s),
            decreases run.targets@.len() - run.next,
        {
            let id = run.targets[run.next].clone();
            let found = match run.current.gaps.find(id.as_str()) {
                Some(_) => true,
                None => false,
            };
            let ghost now = run.deep_view();
            assert(now.targets[now.next as int] == id@);
            if found {
                assert(at_target(now) == (ContractRunView { phase: ContractPhase::Planning, ..now }));
                run.phase = ContractPhase::Planning;
                assert(run.deep_view() =~= at_target(now));
                return run;
            }
            add_item(&mut run.report.gaps_skipped, id);
            run.next = run.next + 1;
            assert(run.deep_view() =~= skip_target(now));
        }
        assert(at_target(run.deep_view()) == round_end(run.deep_view()));
        assert(run.applied.deep_view().len() == run.applied@.len());
        if run.applied.len() == 0 {
            run.phase = ContractPhase::Seeding;
            run.wind_up()
        } else {
            run.phase = ContractPhase::Verdict;
            run.rounds = run.rounds + 1;
            run
        }
    }

    fn open_round(self) -> (r: Self)
        requires
            (ContractRunView { phase: ContractPhase::Seeding, ..self.deep_view() }).wf(),
        ensures
            r.deep_view() == round_start(self.deep_view()),
            r.deep_view().wf(),
    {
        let mut run = self;
        let targets = contract_targets(&run.current.gaps);
        let ids = ids_of_targets(&targets);
        assert(ids.deep_view().len() == ids@.len());
        if run.rounds >= run.max_rounds || ids.len() == 0 {
            run.phase = ContractPhase::Seeding;
            return run.wind_up();
        }
        run.targets = ids;
        run.next = 0;
        run.applied = Vec::new();
        assert(run.applied.deep_view() =~= Seq::empty());
        if run.stale {
            run.phase = ContractPhase::Baseline;
            run.stale = false;
            run
        } else {
            run.start = run.current.clone();
            run.seek()
        }
    }

    fn judge(self, obs: ContractObs) -> (r: Self)
        requires
            self.deep_view().wf(),
            self.phase == ContractPhase::Verdict,
            obs.deep_view().countable(),
        ensures
            r.deep_view() == with_round(self.deep_view(), obs.deep_view()),
            r.deep_view().wf(),
    {
        let ghost s = self.deep_view();
        let ghost o = obs.deep_view();
        let mut run = self;
        run.next = 0;
        let count: usize = run.applied.len();
        assert(run.applied.deep_view().len() == count);
        if reject_contract_round(&run.start, &obs) {
            let note = note_round(&run.start, &obs);
            add_item(&mut run.report.log, note);
            run.current = obs;
            run.undo = copy_texts(&run.applied);
            run.phase = ContractPhase::Restoring;
            return run;
        }
        let mut undo: Vec<String> = Vec::new();
        assert(undo.deep_view() =~= Seq::empty());
        let mut closed = copy_texts(&run.report.gaps_closed);
        let mut i: usize = 0;
        while i < run.applied.len()
            invariant
                i <= run.applied@.len(),
                run.start.deep_view() == s.start,
                s.start.countable(),
                obs.deep_view() == o,
                o.countable(),
                run.applied.deep_view() == s.applied,
                undo.deep_view() == unshrunk_upto(s.start, o, s.applied, i as int),
                closed.deep_view() == closed_upto(
                    s.start,
                    o,
                    s.applied,
                    s.report.gaps_closed,
                    i as int,
                ),
            decreases run.applied@.len() - i,
        {
            assert(s.applied[i as int] == run.applied[i as int]@);
            if accept_change(&run.start, &obs, run.applied[i].as_str()) {
                if obs.gaps.size_at(run.applied[i].as_str()) == 0 {
                    add_once(&mut closed, run.applied[i].as_str());
                }
            } else {
                add_item(&mut undo, run.applied[i].clone());
            }
            i = i + 1;
        }
        run.report.gaps_closed = closed;
        run.current = obs;
        let left: usize = undo.len();
        assert(undo.deep_view().len() == left);
        run.undo = undo;
        if left == 0 {
            run.open_round()
        } else {
            run.phase = ContractPhase::Restoring;
            run
        }
    }

    fn take_undone(self) -> (r: Self)
        requires
            self.deep_view().wf(),
            self.phase == ContractPhase::Restoring,
        ensures
            r.deep_view() == with_undone(self.deep_view()),
            r.deep_view().wf(),
    {
        let mut run = self;
        assert(run.undo.deep_view().len() == run.undo@.len());
        assert(run.applied.deep_view().len() == run.applied@.len());
        add_once(&mut run.report.gaps_reverted, run.undo[run.next].as_str());
        run.stale = true;
        run.next = run.next + 1;
        if run.next < run.undo.len() {
            run
        } else if run.undo.len() < run.applied.len() {
            run.open_round()
        } else {
            run.phase = ContractPhase::Seeding;
            run.wind_up()
        }
    }

    /// Takes in what came of the action.
    pub fn advance(self, event: ContractEvent) -> (r: Self)
        requires
            self.deep_view().wf(),
            takeable(event.deep_view()),
        ensures
            r.deep_view() == contract_step(self.deep_view(), event.deep_view()),
            r.deep_view().wf(),
    {
        let ghost s = self.deep_view();
        let mut run = self;
        assert(run.targets.deep_view().len() == run.targets@.len());
        match (run.phase, event) {
            (ContractPhase::Seeding, ContractEvent::Measured(obs)) => {
                run.before = obs.clone();
                run.current = obs;
                run.open_round()
            },
            (ContractPhase::Baseline, ContractEvent::Measured(obs)) => {
                run.start = obs.clone();
                run.current = obs;
                run.seek()
            },
            (ContractPhase::Planning, ContractEvent::Planned(None)) => {
                let id = run.targets[run.next].clone();
                add_item(&mut run.report.gaps_skipped, id);
                run.next = run.next + 1;
                assert(run.deep_view() =~= skip_target(s));
                run.seek()
            },
            (ContractPhase::Planning, ContractEvent::Planned(Some(change))) => {
                let id = run.targets[run.next].clone();
                add_item(&mut run.files, (id, change.files));
                run.payload = change.payload;
                run.phase = ContractPhase::Applying;
                run
            },
            (ContractPhase::Applying, ContractEvent::Applied { originals, outcome }) => {
                keep_originals(&mut run.backups, &originals);
                let done = match outcome {
                    Ok(_) => true,
                    Err(_) => false,
                };
                if done {
                    let id = run.targets[run.next].clone();
                    add_item(&mut run.applied, id);
                }
                run.next = run.next + 1;
                run.seek()
            },
            (ContractPhase::Verdict, ContractEvent::Measured(obs)) => run.judge(obs),
            (ContractPhase::Restoring, ContractEvent::Restored) => run.take_undone(),
            (ContractPhase::Recheck, ContractEvent::Measured(obs)) => {
                run.current = obs;
                run.complete()
            },
            _ => run,
        }
    }
}

} // verus!
