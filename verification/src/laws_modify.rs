//! What holds of the modify flows in every state: laws of the two state machines.

use vstd::prelude::*;

use crate::modify::{regressed, with_item};
use crate::modify_code::{
    acceptable, backup_from, clean, code_action, code_rejected, code_start, code_step, with_items_upto,
    CodeActionView, CodeEventView, CodePhase, CodeRunView, Verified,
};
use crate::modify_contract::{
    at_target, closed_upto, contract_rejected, contract_start, contract_step, drift, drift_upto, gap_size, is_closed, kept_upto,
    original_from, round_ids, round_start, size_of, skip_target, takeable, unshrunk_upto,
    ContractEventView, ContractObsView, ContractPhase, ContractRunView, GapsView,
};
use crate::text::push_contains;

verus! {

// ---------------------------------------------------------------------------
// Changing code
// ---------------------------------------------------------------------------

/// What a run must never do or say, in any state.
pub open spec fn code_sound(s: CodeRunView) -> bool {
    // Verification is not overstated.
    &&& s.report.verified == Verified::WithTarget ==> s.phase == CodePhase::Done
        && s.current.target_failures is Some
    // Success means a clean measurement and nothing that went wrong.
    &&& s.report.success ==> s.phase == CodePhase::Done && clean(s.current) && s.report.error is None
    // A plan is kept as a whole or rolled back as a whole.
    &&& s.report.files_changed.len() == 0 || s.report.files_reverted.len() == 0
    &&& s.phase != CodePhase::Done ==> s.report.files_changed.len() == 0
    // A run that could not start has written nothing.
    &&& s.report.error is Some ==> s.phase == CodePhase::Done && s.applied.len() == 0
        && s.report.rounds == 0
    &&& s.rounds <= 1
    &&& s.report.rounds <= 1
    // Files are put back in order, and all of them.
    &&& s.phase == CodePhase::Restoring ==> (forall|j: int|
        0 <= j < s.next ==> s.report.files_reverted.contains(#[trigger] s.applied[j]))
    &&& s.phase == CodePhase::Recheck ==> (forall|j: int|
        0 <= j < s.applied.len() ==> s.report.files_reverted.contains(#[trigger] s.applied[j]))
    &&& s.phase == CodePhase::Planning || s.phase == CodePhase::Baseline ==> s.applied.len() == 0
        && s.rounds == 0
    &&& s.phase == CodePhase::Writing ==> s.rounds == 0
    &&& s.phase != CodePhase::Done ==> s.report.rounds == 0
    &&& s.phase != CodePhase::Done && s.phase != CodePhase::Restoring && s.phase
        != CodePhase::Recheck ==> s.report.files_reverted.len() == 0
}

/// A run begins sound.
pub proof fn code_run_starts_sound(max_rounds: usize)
    ensures
        code_sound(code_start(max_rounds)),
        code_start(max_rounds).wf(),
{
}

proof fn with_item_has(list: Seq<Seq<char>>, item: Seq<char>, x: Seq<char>)
    ensures
        with_item(list, item).contains(x) <==> list.contains(x) || x == item,
{
    push_contains(list, item, x);
}

/// Whatever comes of an action, a sound run stays sound: it never claims a
/// verification that did not happen, never calls a project with errors a success,
/// and never ends with half a plan.
pub proof fn code_run_stays_sound(s: CodeRunView, event: CodeEventView)
    requires
        s.wf(),
        code_sound(s),
        acceptable(event),
    ensures
        code_sound(code_step(s, event)),
{
    let next = code_step(s, event);
    match (s.phase, event) {
        (CodePhase::Restoring, CodeEventView::Restored) => {
            let list = s.report.files_reverted;
            let item = s.applied[s.next as int];
            assert forall|j: int| 0 <= j < s.next + 1 implies next.report.files_reverted.contains(
                #[trigger] s.applied[j],
            ) by {
                with_item_has(list, item, s.applied[j]);
            }
        },
        _ => {},
    }
}

/// What a file held before the run is kept as it was first read: nothing that
/// comes later changes it, so a rollback restores exactly that.
pub proof fn code_backup_is_final(s: CodeRunView, event: CodeEventView, file: Seq<char>)
    requires
        backup_from(s.backups, file, 0) is Some,
    ensures
        backup_from(code_step(s, event).backups, file, 0) == backup_from(s.backups, file, 0),
{
    let next = code_step(s, event);
    if next.backups != s.backups {
        backup_stays(s.backups, next.backups.last(), file, 0);
        assert(next.backups =~= s.backups.push(next.backups.last()));
    }
}

proof fn backup_stays(
    backups: Seq<(Seq<char>, Seq<char>)>,
    entry: (Seq<char>, Seq<char>),
    file: Seq<char>,
    k: int,
)
    requires
        0 <= k,
        backup_from(backups, file, k) is Some,
    ensures
        backup_from(backups.push(entry), file, k) == backup_from(backups, file, k),
    decreases backups.len() - k,
{
    if k < backups.len() && backups[k].0 != file {
        backup_stays(backups, entry, file, k + 1);
    }
}

proof fn backup_is_found(
    backups: Seq<(Seq<char>, Seq<char>)>,
    entry: (Seq<char>, Seq<char>),
    k: int,
)
    requires
        0 <= k <= backups.len(),
        backup_from(backups, entry.0, k) is None,
    ensures
        backup_from(backups.push(entry), entry.0, k) == Some(entry.1),
    decreases backups.len() - k,
{
    if k < backups.len() {
        backup_is_found(backups, entry, k + 1);
    }
}

/// What the file held when it was first asked for is what a rollback puts back.
pub proof fn code_restores_the_original(s: CodeRunView, original: Seq<char>, written: bool)
    requires
        s.wf(),
        s.phase == CodePhase::Writing,
        code_action(s) matches CodeActionView::Write { file, content, back_up } && back_up,
    ensures
        backup_from(
            code_step(s, CodeEventView::Written { original: Some(original), written }).backups,
            s.changes[s.next as int].file,
            0,
        ) == Some(original),
{
    backup_is_found(s.backups, (s.changes[s.next as int].file, original), 0);
}

/// A change that did not make anything worse is kept, and one that did is rolled
/// back, every file of it.
pub proof fn code_verdict_is_the_measurement(s: CodeRunView, obs: crate::modify_code::CodeObsView)
    requires
        s.wf(),
        s.phase == CodePhase::Verdict,
    ensures
        ({
            let next = code_step(s, CodeEventView::Measured(obs));
            if code_rejected(s.current, obs) {
                &&& next.phase == CodePhase::Restoring
                &&& next.next == 0
                &&& next.applied == s.applied
                &&& next.report.files_changed == s.report.files_changed
            } else {
                &&& next.phase == CodePhase::Done
                &&& next.report.files_reverted == s.report.files_reverted
                &&& forall|j: int|
                    0 <= j < s.applied.len() ==> next.report.files_changed.contains(
                        #[trigger] s.applied[j],
                    )
            }
        }),
{
    if !code_rejected(s.current, obs) {
        assert forall|j: int| 0 <= j < s.applied.len() implies with_items_upto(
            s.report.files_changed,
            s.applied,
            s.applied.len() as int,
        ).contains(#[trigger] s.applied[j]) by {
            with_items_has(s.report.files_changed, s.applied, s.applied.len() as int, j);
        }
    }
}

proof fn with_items_has(list: Seq<Seq<char>>, items: Seq<Seq<char>>, n: int, j: int)
    requires
        0 <= j < n <= items.len(),
    ensures
        with_items_upto(list, items, n).contains(items[j]),
    decreases n,
{
    let done = with_items_upto(list, items, n - 1);
    with_item_has(done, items[n - 1], items[j]);
    if j < n - 1 {
        with_items_has(list, items, n - 1, j);
    }
}

/// A test leg that did not run, before or after, never causes a rollback.
pub proof fn absent_leg_never_regresses(before: Option<usize>, after: Option<usize>)
    requires
        before is None || after is None,
    ensures
        !regressed(before, after),
{
}

// ---------------------------------------------------------------------------
// Closing gaps
// ---------------------------------------------------------------------------

proof fn no_drift_means_no_gap_from(g: GapsView, n: int)
    requires
        0 <= n <= g.open.len(),
    ensures
        drift_upto(g.open, n) == 0 <==> (forall|i: int|
            0 <= i < n ==> (#[trigger] g.open[i]).missing.len() == 0 && g.open[i].drifted.len() == 0),
    decreases n,
{
    if n > 0 {
        no_drift_means_no_gap_from(g, n - 1);
        if drift_upto(g.open, n) == 0 {
            assert(gap_size(g.open[n - 1]) == 0);
        } else if drift_upto(g.open, n - 1) == 0 {
            assert(gap_size(g.open[n - 1]) > 0);
            assert(!(g.open[n - 1].missing.len() == 0 && g.open[n - 1].drifted.len() == 0));
        }
    }
}

/// There is no drift exactly where no interface lacks a method and none has
/// drifted: that an implementation is a stub adds nothing of its own.
pub proof fn no_drift_means_no_gap(g: GapsView)
    ensures
        drift(g) == 0 <==> (forall|i: int|
            0 <= i < g.open.len() ==> (#[trigger] g.open[i]).missing.len() == 0
                && g.open[i].drifted.len() == 0),
{
    no_drift_means_no_gap_from(g, g.open.len() as int);
}

/// What a run must never do or say, in any state.
pub open spec fn contract_sound(s: ContractRunView) -> bool {
    // Success means that nothing is missing, nothing has drifted, and it builds.
    &&& s.report.success ==> s.phase == ContractPhase::Done && s.current.clean()
    // The rounds are bounded.
    &&& s.rounds <= s.max_rounds
    &&& s.report.rounds <= s.max_rounds
}

/// A run begins sound.
pub proof fn contract_run_starts_sound(max_rounds: usize)
    ensures
        contract_sound(contract_start(max_rounds)),
        contract_start(max_rounds).wf(),
{
}

/// Seeking a target leaves what was measured and backed up alone, and either ends
/// the round or goes on with it.
proof fn seeking_is_sound(s: ContractRunView)
    requires
        !s.report.success,
        s.rounds < s.max_rounds,
        s.report.rounds <= s.max_rounds,
    ensures
        contract_sound(at_target(s)),
        at_target(s).backups == s.backups,
    decreases s.targets.len() - s.next,
{
    if s.next >= s.targets.len() || s.next == usize::MAX {
    } else if crate::modify_contract::gap_from(
        s.current.gaps.open,
        s.targets[s.next as int],
        0,
    ) is Some {
    } else {
        seeking_is_sound(skip_target(s));
    }
}

proof fn opening_is_sound(s: ContractRunView)
    requires
        !s.report.success,
        s.rounds <= s.max_rounds,
        s.report.rounds <= s.max_rounds,
    ensures
        contract_sound(round_start(s)),
        round_start(s).backups == s.backups,
{
    let ids = crate::modify_contract::round_ids(s.current.gaps);
    let fresh = ContractRunView { targets: ids, next: 0, applied: Seq::empty(), ..s };
    if !(s.rounds >= s.max_rounds || ids.len() == 0) && !s.stale {
        seeking_is_sound(ContractRunView { start: s.current, ..fresh });
    }
}

/// Whatever comes of an action, a sound run stays sound.
pub proof fn contract_run_stays_sound(s: ContractRunView, event: ContractEventView)
    requires
        s.wf(),
        contract_sound(s),
        takeable(event),
    ensures
        contract_sound(contract_step(s, event)),
{
    stepping(s, event);
}

proof fn stepping(s: ContractRunView, event: ContractEventView)
    requires
        s.wf(),
        contract_sound(s),
    ensures
        contract_sound(contract_step(s, event)),
        contract_step(s, event).backups == (match (s.phase, event) {
            (ContractPhase::Applying, ContractEventView::Applied { originals, done }) => kept_upto(
                s.backups,
                originals,
                originals.len() as int,
            ),
            _ => s.backups,
        }),
{
    match (s.phase, event) {
        (ContractPhase::Seeding, ContractEventView::Measured(obs)) => {
            opening_is_sound(ContractRunView { before: obs, current: obs, ..s });
        },
        (ContractPhase::Baseline, ContractEventView::Measured(obs)) => {
            seeking_is_sound(ContractRunView { start: obs, current: obs, ..s });
        },
        (ContractPhase::Planning, ContractEventView::Planned(None)) => {
            seeking_is_sound(skip_target(s));
        },
        (ContractPhase::Applying, ContractEventView::Applied { originals, done }) => {
            seeking_is_sound(
                ContractRunView {
                    next: (s.next + 1) as usize,
                    backups: kept_upto(s.backups, originals, originals.len() as int),
                    applied: if done {
                        s.applied.push(s.targets[s.next as int])
                    } else {
                        s.applied
                    },
                    ..s
                },
            );
        },
        (ContractPhase::Verdict, ContractEventView::Measured(obs)) => {
            let n = s.applied.len() as int;
            let measured = ContractRunView { current: obs, next: 0, ..s };
            let judged = ContractRunView {
                undo: unshrunk_upto(s.start, obs, s.applied, n),
                report: crate::modify_contract::ModifyContractReportView {
                    gaps_closed: closed_upto(s.start, obs, s.applied, s.report.gaps_closed, n),
                    ..s.report
                },
                ..measured
            };
            opening_is_sound(judged);
        },
        (ContractPhase::Restoring, ContractEventView::Restored) => {
            let done = ContractRunView {
                next: (s.next + 1) as usize,
                stale: true,
                report: crate::modify_contract::ModifyContractReportView {
                    gaps_reverted: with_item(s.report.gaps_reverted, s.undo[s.next as int]),
                    ..s.report
                },
                ..s
            };
            opening_is_sound(done);
        },
        _ => {},
    }
}

proof fn original_stays(
    backups: Seq<(Seq<char>, Option<Seq<u8>>)>,
    entry: (Seq<char>, Option<Seq<u8>>),
    path: Seq<char>,
    k: int,
)
    requires
        0 <= k,
        original_from(backups, path, k) is Some,
    ensures
        original_from(backups.push(entry), path, k) == original_from(backups, path, k),
    decreases backups.len() - k,
{
    if k < backups.len() && backups[k].0 != path {
        original_stays(backups, entry, path, k + 1);
    }
}

pub(crate) proof fn originals_stay(
    backups: Seq<(Seq<char>, Option<Seq<u8>>)>,
    originals: Seq<(Seq<char>, Option<Seq<u8>>)>,
    path: Seq<char>,
    n: int,
)
    requires
        original_from(backups, path, 0) is Some,
    ensures
        original_from(kept_upto(backups, originals, n), path, 0) == original_from(backups, path, 0),
    decreases n,
{
    if n > 0 {
        originals_stay(backups, originals, path, n - 1);
        original_stays(kept_upto(backups, originals, n - 1), originals[n - 1], path, 0);
    }
}

/// What a file held before the run, or that there was none, is kept as it was
/// first read: a rollback restores exactly that, or removes what was made.
pub proof fn contract_backup_is_final(s: ContractRunView, event: ContractEventView, path: Seq<char>)
    requires
        s.wf(),
        contract_sound(s),
        original_from(s.backups, path, 0) is Some,
    ensures
        original_from(contract_step(s, event).backups, path, 0) == original_from(s.backups, path, 0),
{
    stepping(s, event);
    match (s.phase, event) {
        (ContractPhase::Applying, ContractEventView::Applied { originals, done }) => {
            originals_stay(s.backups, originals, path, originals.len() as int);
        },
        _ => {},
    }
}

proof fn original_is_found(
    backups: Seq<(Seq<char>, Option<Seq<u8>>)>,
    entry: (Seq<char>, Option<Seq<u8>>),
    path: Seq<char>,
    k: int,
)
    requires
        0 <= k <= backups.len(),
        original_from(backups, path, k) is None,
    ensures
        original_from(backups.push(entry), path, k) == (if entry.0 == path {
            Some(entry.1)
        } else {
            None
        }),
    decreases backups.len() - k,
{
    if k < backups.len() {
        original_is_found(backups, entry, path, k + 1);
    } else {
        assert(original_from(backups.push(entry), path, k + 1) is None);
    }
}

pub(crate) proof fn first_original_is_kept(
    backups: Seq<(Seq<char>, Option<Seq<u8>>)>,
    originals: Seq<(Seq<char>, Option<Seq<u8>>)>,
    path: Seq<char>,
    n: int,
)
    requires
        0 <= n <= originals.len(),
        original_from(backups, path, 0) is None,
    ensures
        original_from(kept_upto(backups, originals, n), path, 0) == original_from(
            originals.take(n),
            path,
            0,
        ),
    decreases n,
{
    if n > 0 {
        first_original_is_kept(backups, originals, path, n - 1);
        let kept = kept_upto(backups, originals, n - 1);
        let seen = originals.take(n - 1);
        let entry = originals[n - 1];
        assert(originals.take(n) =~= seen.push(entry));
        if original_from(kept, path, 0) is Some {
            original_stays(kept, entry, path, 0);
            original_stays(seen, entry, path, 0);
        } else {
            original_is_found(kept, entry, path, 0);
            original_is_found(seen, entry, path, 0);
        }
    }
}

/// What a file holds when a change first touches it, byte for byte, or that there is
/// none, is what a rollback of the run puts back.
pub proof fn contract_keeps_the_original(
    s: ContractRunView,
    originals: Seq<(Seq<char>, Option<Seq<u8>>)>,
    done: bool,
    path: Seq<char>,
)
    requires
        s.wf(),
        contract_sound(s),
        s.phase == ContractPhase::Applying,
        original_from(s.backups, path, 0) is None,
    ensures
        original_from(
            contract_step(s, ContractEventView::Applied { originals, done }).backups,
            path,
            0,
        ) == original_from(originals, path, 0),
{
    stepping(s, ContractEventView::Applied { originals, done });
    first_original_is_kept(s.backups, originals, path, originals.len() as int);
    assert(originals.take(originals.len() as int) =~= originals);
}

/// A round that grew the drift or broke the build is rolled back in full, though
/// a gap of its own may have closed.
pub proof fn worse_round_goes_in_full(s: ContractRunView, obs: ContractObsView)
    requires
        s.wf(),
        s.phase == ContractPhase::Verdict,
        contract_rejected(s.start, obs),
    ensures
        ({
            let next = contract_step(s, ContractEventView::Measured(obs));
            &&& next.phase == ContractPhase::Restoring
            &&& next.undo == s.applied
            &&& next.report.gaps_closed == s.report.gaps_closed
        }),
{
}

proof fn seeking_keeps_closed(s: ContractRunView)
    ensures
        at_target(s).report.gaps_closed == s.report.gaps_closed,
    decreases s.targets.len() - s.next,
{
    if !(s.next >= s.targets.len() || s.next == usize::MAX) {
        seeking_keeps_closed(skip_target(s));
    }
}

proof fn opening_keeps_closed(s: ContractRunView)
    ensures
        round_start(s).report.gaps_closed == s.report.gaps_closed,
{
    seeking_keeps_closed(
        ContractRunView {
            targets: round_ids(s.current.gaps),
            next: 0,
            applied: Seq::empty(),
            start: s.current,
            ..s
        },
    );
}

proof fn closed_members(
    before: ContractObsView,
    after: ContractObsView,
    applied: Seq<Seq<char>>,
    closed: Seq<Seq<char>>,
    n: int,
    id: Seq<char>,
)
    requires
        0 <= n <= applied.len(),
        closed_upto(before, after, applied, closed, n).contains(id),
    ensures
        closed.contains(id) || is_closed(before, after, id),
    decreases n,
{
    if n > 0 {
        let done = closed_upto(before, after, applied, closed, n - 1);
        if is_closed(before, after, applied[n - 1]) {
            with_item_has(done, applied[n - 1], id);
        }
        if done.contains(id) {
            closed_members(before, after, applied, closed, n - 1, id);
        }
    }
}

/// A gap is reported as closed only where it shrank and nothing of it is left; that
/// another one closed does not count for it.
pub proof fn only_closed_gaps_are_reported(s: ContractRunView, obs: ContractObsView, id: Seq<char>)
    requires
        s.wf(),
        s.phase == ContractPhase::Verdict,
        contract_step(s, ContractEventView::Measured(obs)).report.gaps_closed.contains(id),
        !s.report.gaps_closed.contains(id),
    ensures
        size_of(obs.gaps, id) == 0,
        size_of(s.start.gaps, id) > 0,
{
    let n = s.applied.len() as int;
    let judged = ContractRunView {
        current: obs,
        next: 0,
        undo: unshrunk_upto(s.start, obs, s.applied, n),
        report: crate::modify_contract::ModifyContractReportView {
            gaps_closed: closed_upto(s.start, obs, s.applied, s.report.gaps_closed, n),
            ..s.report
        },
        ..s
    };
    opening_keeps_closed(judged);
    closed_members(s.start, obs, s.applied, s.report.gaps_closed, n, id);
}

} // verus!
