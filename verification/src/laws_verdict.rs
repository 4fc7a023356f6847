//! When a change is kept and when it is rolled back, over what was counted.

use vstd::prelude::*;

use crate::laws_text::has_ink;
use crate::modify::{errors_total, errors_upto, regressed, FileErrorsView};
use crate::modify_code::{
    code_action, code_step, content_upto, empty_upto, usable_upto, CodeActionView, CodeEventView, CodeObsView, CodePhase,
    CodeRunView, PlannedChangeView, Verified,
};
use crate::modify_contract::{
    closed_upto, contract_rejected, contract_step, drift, drift_upto, gap_from, gap_id, gap_size, ids_upto,
    round_ids, size_of, target_ids, targets_upto, unshrunk_upto, ContractEventView, ContractObsView,
    ContractPhase, ContractRunView, GapView, GapsView,
};
use crate::text::push_contains;

verus! {

// ---------------------------------------------------------------------------
// Counting
// ---------------------------------------------------------------------------

/// How many errors a build has, over all its files.
pub open spec fn error_count(files: Seq<FileErrorsView>) -> int {
    files.fold_left(0int, |n: int, f: FileErrorsView| n + f.errors.len())
}

/// How much is wrong over all gaps: each missing and each drifted method counts once.
pub open spec fn drift_count(g: GapsView) -> int {
    g.open.fold_left(0int, |n: int, gap: GapView| n + gap.missing.len() + gap.drifted.len())
}

proof fn errors_are_counted(files: Seq<FileErrorsView>, n: int)
    requires
        0 <= n <= files.len(),
    ensures
        errors_upto(files, n) == error_count(files.take(n)),
    decreases n,
{
    if n > 0 {
        errors_are_counted(files, n - 1);
        assert(files.take(n).drop_last() =~= files.take(n - 1));
    }
}

/// The total of a build's errors counts every error of every file.
pub proof fn errors_count_in_full(files: Seq<FileErrorsView>)
    ensures
        errors_total(files) == error_count(files),
{
    errors_are_counted(files, files.len() as int);
    assert(files.take(files.len() as int) =~= files);
}

proof fn gaps_are_counted(open: Seq<GapView>, n: int)
    requires
        0 <= n <= open.len(),
    ensures
        drift_upto(open, n) == drift_count(GapsView { open: open.take(n) }),
    decreases n,
{
    if n > 0 {
        gaps_are_counted(open, n - 1);
        assert(open.take(n).drop_last() =~= open.take(n - 1));
    }
}

/// The drift counts every missing and every drifted method of every gap.
pub proof fn drift_counts_in_full(g: GapsView)
    ensures
        drift(g) == drift_count(g),
{
    gaps_are_counted(g.open, g.open.len() as int);
    assert(g.open.take(g.open.len() as int) =~= g.open);
}

// ---------------------------------------------------------------------------
// Changing code
// ---------------------------------------------------------------------------

/// The number rose between two measurements that both have one.
pub open spec fn rose(before: Option<usize>, after: Option<usize>) -> bool {
    before is Some && after is Some && before->0 < after->0
}

/// A test leg that ran both times got worse exactly where more tests fail, however
/// many failed before.
pub proof fn leg_is_worse_when_more_fail(before: Option<usize>, after: Option<usize>)
    ensures
        regressed(before, after) <==> rose(before, after),
{
}

/// No test of the leg fails; one that did not run has none that does.
pub open spec fn none_fails(count: Option<usize>) -> bool {
    count is None || count == Some(0usize)
}

/// A change is rolled back exactly where it made the build worse or a test leg worse,
/// by however little and however bad things were before; else the run is over.
pub proof fn change_is_kept_unless_it_made_things_worse(s: CodeRunView, obs: CodeObsView)
    requires
        s.wf(),
        s.phase == CodePhase::Verdict,
    ensures
        ({
            let next = code_step(s, CodeEventView::Measured(obs));
            let worse = error_count(obs.build_errors) > error_count(s.current.build_errors) || rose(
                s.current.host_failures,
                obs.host_failures,
            ) || rose(s.current.target_failures, obs.target_failures);
            &&& worse ==> next.phase == CodePhase::Restoring && next.next == 0 && next.applied == s.applied
            &&& !worse ==> next.phase == CodePhase::Done
        }),
{
    errors_count_in_full(obs.build_errors);
    errors_count_in_full(s.current.build_errors);
}

/// The report of a run that ends with a measurement states what was measured: the
/// counts before and after, whether the target's tests ran, and success only where
/// nothing is wrong any more.
pub proof fn code_report_states_the_measurement(s: CodeRunView, obs: CodeObsView)
    requires
        s.wf(),
        error_count(obs.build_errors) <= usize::MAX,
        s.phase == CodePhase::Verdict || s.phase == CodePhase::Recheck,
        code_step(s, CodeEventView::Measured(obs)).phase == CodePhase::Done,
    ensures
        ({
            let r = code_step(s, CodeEventView::Measured(obs)).report;
            &&& r.build_errors_after == error_count(obs.build_errors)
            &&& r.host_failures_after == obs.host_failures
            &&& r.target_failures_after == obs.target_failures
            &&& s.before matches Some(b) ==> r.build_errors_before == error_count(b.build_errors)
                && r.host_failures_before == b.host_failures && r.target_failures_before
                == b.target_failures
            &&& r.verified == Verified::WithTarget <==> obs.target_failures is Some
            &&& r.success <==> error_count(obs.build_errors) == 0 && none_fails(obs.host_failures)
                && none_fails(obs.target_failures) && s.report.error is None
            &&& r.error == s.report.error
        }),
{
    errors_count_in_full(obs.build_errors);
    if s.before is Some {
        errors_count_in_full(s.before->0.build_errors);
    }
}

/// What is measured before anything is written is what a change is judged against.
pub proof fn first_measurement_is_the_measure(s: CodeRunView, obs: CodeObsView)
    requires
        s.phase == CodePhase::Baseline,
    ensures
        ({
            let next = code_step(s, CodeEventView::Measured(obs));
            &&& next.phase == CodePhase::Writing
            &&& next.before == Some(obs)
            &&& next.current == obs
            &&& next.changes == s.changes
            &&& next.next == 0
        }),
{
}

proof fn usable_ones_are_kept(plan: Seq<PlannedChangeView>, n: int)
    requires
        0 <= n <= plan.len(),
    ensures
        usable_upto(plan, n) == plan.take(n).filter(|c: PlannedChangeView| has_ink(c.content)),
        empty_upto(plan, n) == plan.take(n).filter(|c: PlannedChangeView| !has_ink(c.content)).map_values(
            |c: PlannedChangeView| c.file,
        ),
    decreases n,
{
    reveal(Seq::filter);
    let kept = |c: PlannedChangeView| has_ink(c.content);
    let left = |c: PlannedChangeView| !has_ink(c.content);
    let name = |c: PlannedChangeView| c.file;
    if n > 0 {
        usable_ones_are_kept(plan, n - 1);
        assert(plan.take(n).drop_last() =~= plan.take(n - 1));
        assert(plan.take(n).last() == plan[n - 1]);
        crate::laws_text::trimmed_has_the_ink(plan[n - 1].content);
        let old_left = plan.take(n - 1).filter(left);
        assert(old_left.push(plan[n - 1]).map_values(name) =~= old_left.map_values(name).push(plan[n - 1].file));
    } else {
        assert(plan.take(0).filter(left).map_values(name) =~= Seq::empty());
        assert(plan.take(0).filter(kept) =~= Seq::empty());
    }
}

/// Of a plan exactly the changes that say something are made, in order; the files of
/// the others are reported as skipped. A plan without any writes nothing and is an
/// error.
pub proof fn plan_is_taken_as_it_is(s: CodeRunView, plan: Seq<PlannedChangeView>)
    requires
        s.phase == CodePhase::Planning,
    ensures
        ({
            let next = code_step(s, CodeEventView::Planned(Some(plan)));
            let kept = plan.filter(|c: PlannedChangeView| has_ink(c.content));
            let left = plan.filter(|c: PlannedChangeView| !has_ink(c.content));
            &&& next.report.files_skipped == s.report.files_skipped + left.map_values(
                |c: PlannedChangeView| c.file,
            )
            &&& next.applied == s.applied
            &&& kept.len() > 0 && s.max_rounds > 0 ==> next.phase == CodePhase::Baseline && next.changes == kept
                && next.report.error == s.report.error
            &&& kept.len() == 0 ==> next.phase == CodePhase::Done && next.report.error is Some
            &&& s.max_rounds == 0 ==> next.phase == CodePhase::Done
        }),
{
    usable_ones_are_kept(plan, plan.len() as int);
    assert(plan.take(plan.len() as int) =~= plan);
}

proof fn last_content(changes: Seq<PlannedChangeView>, file: Seq<char>, n: int)
    requires
        0 <= n <= changes.len(),
    ensures
        forall|k: int|
            0 <= k < n && (#[trigger] changes[k]).file == file && (forall|j: int|
                k < j < n ==> (#[trigger] changes[j]).file != file) ==> content_upto(changes, file, n)
                == changes[k].content,
    decreases n,
{
    if n > 0 {
        last_content(changes, file, n - 1);
        assert forall|k: int|
            0 <= k < n && (#[trigger] changes[k]).file == file && (forall|j: int|
                k < j < n ==> (#[trigger] changes[j]).file != file) implies content_upto(changes, file, n)
            == changes[k].content by {
            if k < n - 1 {
                assert(changes[n - 1].file != file);
            }
        }
    }
}

/// A file is written with what the last change to it says, and is read before where it
/// was not read yet.
pub proof fn last_change_to_a_file_wins(s: CodeRunView, k: int)
    requires
        s.phase == CodePhase::Writing,
        s.next < s.changes.len(),
        0 <= k < s.changes.len(),
        s.changes[k].file == s.changes[s.next as int].file,
        forall|j: int| k < j < s.changes.len() ==> (#[trigger] s.changes[j]).file != s.changes[k].file,
    ensures
        code_action(s) matches CodeActionView::Write { file, content, back_up } && file == s.changes[k].file
            && content == s.changes[k].content && (back_up <==> forall|b: int|
            0 <= b < s.backups.len() ==> (#[trigger] s.backups[b]).0 != file),
{
    last_content(s.changes, s.changes[k].file, s.changes.len() as int);
    no_backup(s.backups, s.changes[k].file, 0);
}

proof fn no_backup(backups: Seq<(Seq<char>, Seq<char>)>, file: Seq<char>, k: int)
    requires
        0 <= k,
    ensures
        crate::modify_code::backup_from(backups, file, k) is None <==> forall|b: int|
            k <= b < backups.len() ==> (#[trigger] backups[b]).0 != file,
    decreases backups.len() - k,
{
    if k < backups.len() {
        no_backup(backups, file, k + 1);
    }
}

/// Each file that was written is put back, one after the other; after the last one the
/// project is measured again.
pub proof fn files_go_back_one_by_one(s: CodeRunView)
    requires
        s.phase == CodePhase::Restoring,
        s.next < s.applied.len() <= usize::MAX,
    ensures
        ({
            let next = code_step(s, CodeEventView::Restored);
            let file = s.applied[s.next as int];
            &&& code_action(s) matches CodeActionView::Restore { file: f, original } && f == file
            &&& next.report.files_reverted.contains(file)
            &&& s.next + 1 < s.applied.len() ==> next.phase == CodePhase::Restoring && next.next == s.next + 1
            &&& s.next + 1 == s.applied.len() ==> next.phase == CodePhase::Recheck
        }),
{
    push_contains(s.report.files_reverted, s.applied[s.next as int], s.applied[s.next as int]);
}

// ---------------------------------------------------------------------------
// Closing gaps
// ---------------------------------------------------------------------------

/// How much is wrong with the gap of that identity: with the first one that has it,
/// and nothing where there is none.
pub open spec fn left_of(g: GapsView, id: Seq<char>, n: int) -> bool {
    ||| n == 0 && forall|k: int| 0 <= k < g.open.len() ==> named(#[trigger] g.open[k]) != id
    ||| exists|k: int|
        0 <= k < g.open.len() && named(#[trigger] g.open[k]) == id && n == g.open[k].missing.len()
            + g.open[k].drifted.len() && forall|j: int| 0 <= j < k ==> named(#[trigger] g.open[j]) != id
}

/// A gap is known by its platform and its interface.
pub open spec fn named(g: GapView) -> Seq<char> {
    g.platform + "/"@ + g.interface
}

proof fn first_gap(g: GapsView, id: Seq<char>, k: int)
    requires
        0 <= k,
    ensures
        (match gap_from(g.open, id, k) {
            Some(f) => k <= f < g.open.len() && named(g.open[f]) == id && forall|j: int|
                k <= j < f ==> named(#[trigger] g.open[j]) != id,
            None => forall|j: int| k <= j < g.open.len() ==> named(#[trigger] g.open[j]) != id,
        }),
    decreases g.open.len() - k,
{
    if k < g.open.len() && gap_id(g.open[k]) != id {
        first_gap(g, id, k + 1);
    }
}

/// The size of a gap is the number of its missing and drifted methods.
pub proof fn size_is_what_is_left(g: GapsView, id: Seq<char>)
    ensures
        left_of(g, id, size_of(g, id) as int),
{
    first_gap(g, id, 0);
    if let Some(f) = gap_from(g.open, id, 0) {
        assert(named(g.open[f]) == id);
    }
}

proof fn left_is_unique(g: GapsView, id: Seq<char>, n: int)
    requires
        left_of(g, id, n),
    ensures
        n == size_of(g, id),
{
    first_gap(g, id, 0);
}

/// A round is rejected exactly where the drift rose or the number of build errors
/// rose, whatever they were before.
pub proof fn round_is_rejected_when_a_count_rose(before: ContractObsView, after: ContractObsView)
    ensures
        contract_rejected(before, after) <==> drift_count(after.gaps) > drift_count(before.gaps)
            || error_count(after.build_errors) > error_count(before.build_errors),
{
    drift_counts_in_full(before.gaps);
    drift_counts_in_full(after.gaps);
    errors_count_in_full(before.build_errors);
    errors_count_in_full(after.build_errors);
}

/// A round that raised a count is put back, every change of it.
pub proof fn round_that_raised_a_count_goes_back(s: ContractRunView, obs: ContractObsView)
    requires
        s.wf(),
        s.phase == ContractPhase::Verdict,
        drift_count(obs.gaps) > drift_count(s.start.gaps) || error_count(obs.build_errors) > error_count(
            s.start.build_errors,
        ),
    ensures
        ({
            let next = contract_step(s, ContractEventView::Measured(obs));
            &&& next.phase == ContractPhase::Restoring
            &&& next.undo == s.applied
            &&& next.next == 0
            &&& next.report.gaps_closed == s.report.gaps_closed
        }),
{
    round_is_rejected_when_a_count_rose(s.start, obs);
}

proof fn unshrunk_ones(before: ContractObsView, after: ContractObsView, applied: Seq<Seq<char>>, n: int)
    requires
        0 <= n <= applied.len(),
    ensures
        unshrunk_upto(before, after, applied, n) == applied.take(n).filter(
            |id: Seq<char>| size_of(after.gaps, id) >= size_of(before.gaps, id),
        ),
    decreases n,
{
    reveal(Seq::filter);
    if n > 0 {
        unshrunk_ones(before, after, applied, n - 1);
        assert(applied.take(n).drop_last() =~= applied.take(n - 1));
        assert(applied.take(n).last() == applied[n - 1]);
    } else {
        assert(applied.take(0).filter(
            |id: Seq<char>| size_of(after.gaps, id) >= size_of(before.gaps, id),
        ) =~= Seq::empty());
    }
}

proof fn closed_ones(
    before: ContractObsView,
    after: ContractObsView,
    applied: Seq<Seq<char>>,
    closed: Seq<Seq<char>>,
    n: int,
    id: Seq<char>,
)
    requires
        0 <= n <= applied.len(),
    ensures
        closed_upto(before, after, applied, closed, n).contains(id) <==> closed.contains(id) || (
        applied.take(n).contains(id) && size_of(after.gaps, id) == 0 && size_of(before.gaps, id) > 0),
    decreases n,
{
    if n > 0 {
        closed_ones(before, after, applied, closed, n - 1, id);
        let done = closed_upto(before, after, applied, closed, n - 1);
        assert(applied.take(n) =~= applied.take(n - 1).push(applied[n - 1]));
        push_contains(applied.take(n - 1), applied[n - 1], id);
        push_contains(done, applied[n - 1], id);
    } else {
        assert(applied.take(0) =~= Seq::empty());
    }
}

/// Of a round that raised no count, exactly those changes are put back whose gap is
/// not smaller than before, in order; where all gaps shrank nothing is put back.
pub proof fn change_that_shrank_nothing_goes_back(s: ContractRunView, obs: ContractObsView)
    requires
        s.wf(),
        s.phase == ContractPhase::Verdict,
        drift_count(obs.gaps) <= drift_count(s.start.gaps),
        error_count(obs.build_errors) <= error_count(s.start.build_errors),
    ensures
        ({
            let next = contract_step(s, ContractEventView::Measured(obs));
            let back = s.applied.filter(
                |id: Seq<char>| size_of(obs.gaps, id) >= size_of(s.start.gaps, id),
            );
            &&& back.len() > 0 ==> next.phase == ContractPhase::Restoring && next.undo == back && next.next == 0
            &&& back.len() == 0 ==> next.phase != ContractPhase::Restoring
        }),
{
    round_is_rejected_when_a_count_rose(s.start, obs);
    unshrunk_ones(s.start, obs, s.applied, s.applied.len() as int);
    assert(s.applied.take(s.applied.len() as int) =~= s.applied);
    let n = s.applied.len() as int;
    let judged = ContractRunView {
        current: obs,
        next: 0,
        undo: unshrunk_upto(s.start, obs, s.applied, n),
        report: crate::modify_contract::ModifyContractReportView {
            gaps_closed: closed_upto(s.start, obs, s.applied, s.report.gaps_closed, n),
            ..s.report
        },
        ..s
    };
    opening_never_restores(judged);
}

proof fn seeking_never_restores(s: ContractRunView)
    ensures
        crate::modify_contract::at_target(s).phase != ContractPhase::Restoring,
    decreases s.targets.len() - s.next,
{
    if !(s.next >= s.targets.len() || s.next == usize::MAX) {
        seeking_never_restores(crate::modify_contract::skip_target(s));
    }
}

proof fn opening_never_restores(s: ContractRunView)
    ensures
        crate::modify_contract::round_start(s).phase != ContractPhase::Restoring,
{
    seeking_never_restores(
        ContractRunView {
            targets: round_ids(s.current.gaps),
            next: 0,
            applied: Seq::empty(),
            start: s.current,
            ..s
        },
    );
}

/// A gap is reported as closed exactly where something was wrong with it before the
/// round and nothing is any more.
pub proof fn closed_means_nothing_is_left(
    before: ContractObsView,
    after: ContractObsView,
    applied: Seq<Seq<char>>,
    closed: Seq<Seq<char>>,
    id: Seq<char>,
)
    ensures
        closed_upto(before, after, applied, closed, applied.len() as int).contains(id) <==> closed.contains(id)
            || (applied.contains(id) && left_of(after.gaps, id, 0) && !left_of(before.gaps, id, 0)),
{
    closed_ones(before, after, applied, closed, applied.len() as int, id);
    assert(applied.take(applied.len() as int) =~= applied);
    size_is_what_is_left(before.gaps, id);
    size_is_what_is_left(after.gaps, id);
    if left_of(before.gaps, id, 0) {
        left_is_unique(before.gaps, id, 0);
    }
    if left_of(after.gaps, id, 0) {
        left_is_unique(after.gaps, id, 0);
    }
}

proof fn targets_of_gaps(open: Seq<GapView>, n: int)
    requires
        0 <= n <= open.len(),
    ensures
        target_ids(targets_upto(open, n), targets_upto(open, n).len() as int) == open.take(n).filter_map(
            |g: GapView| if g.missing.len() + g.drifted.len() > 0 { Some(named(g)) } else { None },
        ),
        ids_upto(open, n) == open.take(n).filter_map(
            |g: GapView| if g.missing.len() + g.drifted.len() > 0 { Some(named(g)) } else { None },
        ),
    decreases n,
{
    let f = |g: GapView| if g.missing.len() + g.drifted.len() > 0 { Some(named(g)) } else { None::<Seq<char>> };
    if n > 0 {
        targets_of_gaps(open, n - 1);
        assert(open.take(n).drop_last() =~= open.take(n - 1));
        assert(open.take(n).last() == open[n - 1]);
        let done = targets_upto(open, n - 1);
        if gap_size(open[n - 1]) > 0 {
            ids_of_first(done, crate::modify_contract::target_of(open[n - 1]), done.len() as int);
            assert(open.take(n).filter_map(f) =~= open.take(n - 1).filter_map(f).push(named(open[n - 1])));
        }
    } else {
        assert(open.take(0).filter_map(f) =~= Seq::empty());
    }
}

proof fn ids_of_first(
    targets: Seq<crate::modify::ChangeTargetView>,
    more: crate::modify::ChangeTargetView,
    n: int,
)
    requires
        0 <= n <= targets.len(),
    ensures
        target_ids(targets.push(more), n) == target_ids(targets, n),
    decreases n,
{
    if n > 0 {
        ids_of_first(targets, more, n - 1);
    }
}

/// A round works on every gap in which a method is missing or drifted, in order, and
/// on no other; what is outstanding at the end is told in the same way.
pub proof fn round_works_on_what_is_wrong(g: GapsView)
    ensures
        round_ids(g) == g.open.filter_map(
            |g: GapView| if g.missing.len() + g.drifted.len() > 0 { Some(named(g)) } else { None },
        ),
        ids_upto(g.open, g.open.len() as int) == g.open.filter_map(
            |g: GapView| if g.missing.len() + g.drifted.len() > 0 { Some(named(g)) } else { None },
        ),
{
    targets_of_gaps(g.open, g.open.len() as int);
    assert(g.open.take(g.open.len() as int) =~= g.open);
}

/// The report of a run that ends with a measurement states what was counted, and
/// success only where no drift and no error is left.
pub proof fn contract_report_states_the_measurement(s: ContractRunView, obs: ContractObsView)
    requires
        s.wf(),
        s.phase == ContractPhase::Recheck,
        obs.countable(),
    ensures
        ({
            let next = contract_step(s, ContractEventView::Measured(obs));
            let r = next.report;
            &&& next.phase == ContractPhase::Done
            &&& r.rounds == s.rounds
            &&& r.drift_before == drift_count(s.before.gaps)
            &&& r.drift_after == drift_count(obs.gaps)
            &&& r.build_errors_before == error_count(s.before.build_errors)
            &&& r.build_errors_after == error_count(obs.build_errors)
            &&& r.success <==> drift_count(obs.gaps) == 0 && error_count(obs.build_errors) == 0
                && s.report.error is None
            &&& r.gaps_remaining == obs.gaps.open.filter_map(
                |g: GapView| if g.missing.len() + g.drifted.len() > 0 { Some(named(g)) } else { None },
            )
        }),
{
    drift_counts_in_full(s.before.gaps);
    drift_counts_in_full(obs.gaps);
    errors_count_in_full(s.before.build_errors);
    errors_count_in_full(obs.build_errors);
    round_works_on_what_is_wrong(obs.gaps);
}

} // verus!
