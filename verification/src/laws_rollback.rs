//! What a rollback of one gap puts back: a law over every run of the contract flow.

use vstd::prelude::*;

use crate::laws_modify::{first_original_is_kept, originals_stay};
use crate::modify::with_item;
use crate::modify_contract::{
    at_target, closed_upto, contract_action, contract_start, contract_step, files_upto, kept_upto, original_from,
    restores_upto, round_ids, round_start, skip_target, unread_upto, unshrunk_upto, ContractActionView,
    ContractChangeView, ContractEventView, ContractPhase, ContractRunView, ModifyContractReportView,
};
use crate::text::push_contains;

verus! {

/// The state of a run once it took the first `n` events.
#[verifier::opaque]
pub open spec fn run_through(s: ContractRunView, events: Seq<ContractEventView>, n: int) -> ContractRunView
    decreases n,
{
    if n <= 0 {
        s
    } else {
        contract_step(run_through(s, events, n - 1), events[n - 1])
    }
}

/// The event is a change proposed for the gap.
pub open spec fn proposes(s: ContractRunView, event: ContractEventView, id: Seq<char>) -> bool {
    &&& s.phase == ContractPhase::Planning
    &&& event matches ContractEventView::Planned(Some(_))
    &&& s.targets[s.next as int] == id
}

/// Taking the event puts back what a change wrote.
spec fn undoes(s: ContractRunView, event: ContractEventView) -> bool {
    s.phase == ContractPhase::Restoring && event == ContractEventView::Restored
}

proof fn seeking_keeps(s: ContractRunView)
    ensures
        at_target(s).backups == s.backups,
        at_target(s).files == s.files,
        at_target(s).report.gaps_reverted == s.report.gaps_reverted,
    decreases s.targets.len() - s.next,
{
    if !(s.next >= s.targets.len() || s.next == usize::MAX) {
        seeking_keeps(skip_target(s));
    }
}

proof fn opening_keeps(s: ContractRunView)
    ensures
        round_start(s).backups == s.backups,
        round_start(s).files == s.files,
        round_start(s).report.gaps_reverted == s.report.gaps_reverted,
{
    seeking_keeps(
        ContractRunView {
            targets: round_ids(s.current.gaps),
            next: 0,
            applied: Seq::empty(),
            start: s.current,
            ..s
        },
    );
}

proof fn step_keeps(s: ContractRunView, event: ContractEventView)
    ensures
        contract_step(s, event).backups == (match (s.phase, event) {
            (ContractPhase::Applying, ContractEventView::Applied { originals, done }) => kept_upto(
                s.backups,
                originals,
                originals.len() as int,
            ),
            _ => s.backups,
        }),
        contract_step(s, event).files == (match (s.phase, event) {
            (ContractPhase::Planning, ContractEventView::Planned(Some(change))) => s.files.push(
                (s.targets[s.next as int], change.files),
            ),
            _ => s.files,
        }),
        contract_step(s, event).report.gaps_reverted == (if undoes(s, event) {
            with_item(s.report.gaps_reverted, s.undo[s.next as int])
        } else {
            s.report.gaps_reverted
        }),
{
    match (s.phase, event) {
        (ContractPhase::Seeding, ContractEventView::Measured(obs)) => {
            opening_keeps(ContractRunView { before: obs, current: obs, ..s });
        },
        (ContractPhase::Baseline, ContractEventView::Measured(obs)) => {
            seeking_keeps(ContractRunView { start: obs, current: obs, ..s });
        },
        (ContractPhase::Planning, ContractEventView::Planned(None)) => {
            seeking_keeps(skip_target(s));
        },
        (ContractPhase::Applying, ContractEventView::Applied { originals, done }) => {
            seeking_keeps(
                ContractRunView {
                    next: (s.next + 1) as usize,
                    backups: kept_upto(s.backups, originals, originals.len() as int),
                    applied: if done {
                        s.applied.push(s.targets[s.next as int])
                    } else {
                        s.applied
                    },
                    ..s
                },
            );
        },
        (ContractPhase::Verdict, ContractEventView::Measured(obs)) => {
            let n = s.applied.len() as int;
            opening_keeps(
                ContractRunView {
                    current: obs,
                    next: 0,
                    undo: unshrunk_upto(s.start, obs, s.applied, n),
                    report: ModifyContractReportView {
                        gaps_closed: closed_upto(s.start, obs, s.applied, s.report.gaps_closed, n),
                        ..s.report
                    },
                    ..s
                },
            );
        },
        (ContractPhase::Restoring, ContractEventView::Restored) => {
            opening_keeps(
                ContractRunView {
                    next: (s.next + 1) as usize,
                    stale: true,
                    report: ModifyContractReportView {
                        gaps_reverted: with_item(s.report.gaps_reverted, s.undo[s.next as int]),
                        ..s.report
                    },
                    ..s
                },
            );
        },
        _ => {},
    }
}

proof fn with_item_stays_distinct(list: Seq<Seq<char>>, item: Seq<char>)
    requires
        list.no_duplicates(),
    ensures
        with_item(list, item).no_duplicates(),
        with_item(list, item).contains(item),
{
    push_contains(list, item, item);
    if !list.contains(item) {
        assert forall|i: int| 0 <= i < list.len() implies list[i] != item by {
            assert(list.contains(list[i]));
        }
    }
}

proof fn next_state(s: ContractRunView, events: Seq<ContractEventView>, n: int)
    requires
        n >= 0,
    ensures
        ({
            let a = run_through(s, events, n);
            let b = run_through(s, events, n + 1);
            &&& b.backups == (match (a.phase, events[n]) {
                (ContractPhase::Applying, ContractEventView::Applied { originals, done }) => kept_upto(
                    a.backups,
                    originals,
                    originals.len() as int,
                ),
                _ => a.backups,
            })
            &&& b.files == (match (a.phase, events[n]) {
                (ContractPhase::Planning, ContractEventView::Planned(Some(change))) => a.files.push(
                    (a.targets[a.next as int], change.files),
                ),
                _ => a.files,
            })
            &&& b.report.gaps_reverted == (if undoes(a, events[n]) {
                with_item(a.report.gaps_reverted, a.undo[a.next as int])
            } else {
                a.report.gaps_reverted
            })
        }),
{
    reveal(run_through);
    step_keeps(run_through(s, events, n), events[n]);
}

proof fn first_state(s: ContractRunView, events: Seq<ContractEventView>, n: int)
    requires
        n <= 0,
    ensures
        run_through(s, events, n) == s,
{
    reveal(run_through);
}

/// No gap is ever recorded twice as rolled back.
pub proof fn no_gap_is_reverted_twice(max_rounds: usize, events: Seq<ContractEventView>, n: int)
    ensures
        run_through(contract_start(max_rounds), events, n).report.gaps_reverted.no_duplicates(),
    decreases n,
{
    let start = contract_start(max_rounds);
    if n > 0 {
        no_gap_is_reverted_twice(max_rounds, events, n - 1);
        next_state(start, events, n - 1);
        let s = run_through(start, events, n - 1);
        with_item_stays_distinct(s.report.gaps_reverted, s.undo[s.next as int]);
    } else {
        first_state(start, events, n);
    }
}

/// What is found in the file before the change is applied: what was read of it
/// earlier in the run, else what is read now.
pub open spec fn first_read(
    backups: Seq<(Seq<char>, Option<Seq<u8>>)>,
    originals: Seq<(Seq<char>, Option<Seq<u8>>)>,
    path: Seq<char>,
) -> Option<Option<Seq<u8>>> {
    match original_from(backups, path, 0) {
        Some(original) => Some(original),
        None => original_from(originals, path, 0),
    }
}

proof fn backups_last(
    s: ContractRunView,
    events: Seq<ContractEventView>,
    m: int,
    n: int,
    path: Seq<char>,
)
    requires
        0 <= m <= n,
        original_from(run_through(s, events, m).backups, path, 0) is Some,
    ensures
        original_from(run_through(s, events, n).backups, path, 0) == original_from(
            run_through(s, events, m).backups,
            path,
            0,
        ),
    decreases n - m,
{
    if m < n {
        backups_last(s, events, m, n - 1, path);
        let t = run_through(s, events, n - 1);
        next_state(s, events, n - 1);
        match (t.phase, events[n - 1]) {
            (ContractPhase::Applying, ContractEventView::Applied { originals, done }) => {
                originals_stay(t.backups, originals, path, originals.len() as int);
            },
            _ => {},
        }
    }
}

/// The files of the last change that was proposed for the gap.
spec fn files_for(s: ContractRunView, id: Seq<char>) -> Seq<Seq<char>> {
    files_upto(s.files, id, s.files.len() as int)
}

proof fn plan_lasts(s: ContractRunView, events: Seq<ContractEventView>, m: int, n: int, id: Seq<char>)
    requires
        0 <= m <= n <= events.len(),
        forall|k: int| m <= k < n ==> !proposes(run_through(s, events, k), #[trigger] events[k], id),
    ensures
        files_for(run_through(s, events, n), id) == files_for(run_through(s, events, m), id),
    decreases n - m,
{
    if m < n {
        plan_lasts(s, events, m, n - 1, id);
        next_state(s, events, n - 1);
        let t = run_through(s, events, n - 1);
        let event = events[n - 1];
        assert(!proposes(t, event, id));
        match (t.phase, event) {
            (ContractPhase::Planning, ContractEventView::Planned(Some(change))) => {
                let entry = (t.targets[t.next as int], change.files);
                files_before(t.files, entry, id, t.files.len() as int);
            },
            _ => {},
        }
    }
}

proof fn files_before(
    files: Seq<(Seq<char>, Seq<Seq<char>>)>,
    entry: (Seq<char>, Seq<Seq<char>>),
    id: Seq<char>,
    n: int,
)
    requires
        0 <= n <= files.len(),
    ensures
        files_upto(files.push(entry), id, n) == files_upto(files, id, n),
    decreases n,
{
    if n > 0 {
        files_before(files, entry, id, n - 1);
    }
}

proof fn all_are_put_back(
    backups: Seq<(Seq<char>, Option<Seq<u8>>)>,
    files: Seq<Seq<char>>,
    held: spec_fn(Seq<char>) -> Option<Seq<u8>>,
    n: int,
)
    requires
        0 <= n <= files.len(),
        forall|i: int| 0 <= i < n ==> original_from(backups, #[trigger] files[i], 0) == Some(held(files[i])),
    ensures
        restores_upto(backups, files, n) == Seq::new(n as nat, |i: int| (files[i], held(files[i]))),
    decreases n,
{
    if n > 0 {
        all_are_put_back(backups, files, held, n - 1);
        assert(original_from(backups, files[n - 1], 0) == Some(held(files[n - 1])));
        assert(restores_upto(backups, files, n) =~= Seq::new(n as nat, |i: int| (files[i], held(files[i]))));
    } else {
        assert(restores_upto(backups, files, n) =~= Seq::new(n as nat, |i: int| (files[i], held(files[i]))));
    }
}

proof fn unread_is_listed(
    backups: Seq<(Seq<char>, Option<Seq<u8>>)>,
    files: Seq<Seq<char>>,
    n: int,
    i: int,
)
    requires
        0 <= i < n <= files.len(),
        original_from(backups, files[i], 0) is None,
    ensures
        unread_upto(backups, files, n).contains(files[i]),
    decreases n,
{
    let done = unread_upto(backups, files, n - 1);
    push_contains(done, files[n - 1], files[i]);
    if i < n - 1 {
        unread_is_listed(backups, files, n - 1, i);
    }
}

proof fn plan_is_taken(
    s: ContractRunView,
    events: Seq<ContractEventView>,
    n: int,
    change: ContractChangeView,
)
    requires
        n >= 0,
        run_through(s, events, n).phase == ContractPhase::Planning,
        events[n] == ContractEventView::Planned(Some(change)),
    ensures
        ({
            let a = run_through(s, events, n);
            let id = a.targets[a.next as int];
            let b = run_through(s, events, n + 1);
            &&& b.phase == ContractPhase::Applying
            &&& b.backups == a.backups
            &&& files_for(b, id) == change.files
            &&& contract_action(b) == (ContractActionView::Apply {
                payload: change.payload,
                back_up: unread_upto(a.backups, change.files, change.files.len() as int),
            })
        }),
{
    reveal(run_through);
    let a = run_through(s, events, n);
    let id = a.targets[a.next as int];
    let b = run_through(s, events, n + 1);
    assert(b.files.last() == (id, change.files));
}

proof fn originals_are_kept(
    backups: Seq<(Seq<char>, Option<Seq<u8>>)>,
    originals: Seq<(Seq<char>, Option<Seq<u8>>)>,
    files: Seq<Seq<char>>,
    i: int,
)
    requires
        0 <= i < files.len(),
        forall|k: int|
            #![trigger unread_upto(backups, files, files.len() as int)[k]]
            0 <= k < unread_upto(backups, files, files.len() as int).len() ==> original_from(
                originals,
                unread_upto(backups, files, files.len() as int)[k],
                0,
            ) is Some,
    ensures
        first_read(backups, originals, files[i]) is Some,
        original_from(kept_upto(backups, originals, originals.len() as int), files[i], 0) == first_read(
            backups,
            originals,
            files[i],
        ),
{
    let path = files[i];
    let back_up = unread_upto(backups, files, files.len() as int);
    if original_from(backups, path, 0) is Some {
        originals_stay(backups, originals, path, originals.len() as int);
    } else {
        unread_is_listed(backups, files, files.len() as int, i);
        let k = choose|k: int| 0 <= k < back_up.len() && back_up[k] == path;
        assert(original_from(originals, back_up[k], 0) is Some);
        first_original_is_kept(backups, originals, path, originals.len() as int);
        assert(originals.take(originals.len() as int) =~= originals);
    }
}

/// A rollback of one gap undoes its change in full. Let a run be offered a change for
/// a gap with its event `i`, and have applied it with the next, with what each file
/// held that it asked to be read; let no other change be offered for the gap before
/// event `j`, with which the gap is rolled back. The action that asked for that names
/// each file of the change with exactly the bytes that it held when the run first read
/// it, or as absent where there was none; and afterwards the gap is recorded as rolled
/// back, once.
pub proof fn rollback_undoes_the_change(
    max_rounds: usize,
    events: Seq<ContractEventView>,
    i: int,
    j: int,
    change: ContractChangeView,
    originals: Seq<(Seq<char>, Option<Seq<u8>>)>,
)
    requires
        ({
            let start = contract_start(max_rounds);
            let s = run_through(start, events, i);
            let id = s.targets[s.next as int];
            let t = run_through(start, events, j);
            &&& 0 <= i
            &&& i + 2 <= j < events.len()
            &&& s.phase == ContractPhase::Planning
            &&& s.next < s.targets.len()
            &&& events[i] == ContractEventView::Planned(Some(change))
            &&& events[i + 1] == (ContractEventView::Applied { originals, done: true })
            &&& contract_action(run_through(start, events, i + 1)) matches ContractActionView::Apply {
                payload,
                back_up,
            } && forall|k: int|
                0 <= k < back_up.len() ==> original_from(originals, #[trigger] back_up[k], 0) is Some
            &&& forall|k: int|
                i + 2 <= k < j ==> !proposes(run_through(start, events, k), #[trigger] events[k], id)
            &&& t.phase == ContractPhase::Restoring
            &&& t.next < t.undo.len()
            &&& t.undo[t.next as int] == id
            &&& events[j] == ContractEventView::Restored
        }),
    ensures
        ({
            let start = contract_start(max_rounds);
            let s = run_through(start, events, i);
            let id = s.targets[s.next as int];
            let reverted = run_through(start, events, j + 1).report.gaps_reverted;
            &&& contract_action(run_through(start, events, j)) == (ContractActionView::Restore {
                files: Seq::new(
                    change.files.len(),
                    |k: int| (change.files[k], first_read(s.backups, originals, change.files[k])->0),
                ),
            })
            &&& forall|k: int|
                0 <= k < change.files.len() ==> first_read(
                    s.backups,
                    originals,
                    #[trigger] change.files[k],
                ) is Some
            &&& reverted.contains(id)
            &&& reverted.no_duplicates()
        }),
{
    let start = contract_start(max_rounds);
    let s = run_through(start, events, i);
    let id = s.targets[s.next as int];
    let applied = run_through(start, events, i + 2);
    let t = run_through(start, events, j);
    let files = change.files;
    let n = files.len() as int;
    plan_is_taken(start, events, i, change);
    let back_up = unread_upto(s.backups, files, n);
    assert(contract_action(run_through(start, events, i + 1))->back_up == back_up);
    assert forall|k: int| 0 <= k < back_up.len() implies original_from(originals, #[trigger] back_up[k], 0) is Some by {}
    next_state(start, events, i + 1);
    assert(files_for(applied, id) == files);
    plan_lasts(start, events, i + 2, j, id);
    let held = |path: Seq<char>| first_read(s.backups, originals, path)->0;
    assert forall|k: int| 0 <= k < n implies first_read(s.backups, originals, #[trigger] files[k]) is Some
        && original_from(t.backups, files[k], 0) == Some(held(files[k])) by {
        originals_are_kept(s.backups, originals, files, k);
        backups_last(start, events, i + 2, j, files[k]);
    }
    all_are_put_back(t.backups, files, held, n);
    assert(Seq::new(files.len(), |k: int| (files[k], held(files[k]))) =~= Seq::new(
        files.len(),
        |k: int| (files[k], first_read(s.backups, originals, files[k])->0),
    ));
    no_gap_is_reverted_twice(max_rounds, events, j + 1);
    no_gap_is_reverted_twice(max_rounds, events, j);
    next_state(start, events, j);
    with_item_stays_distinct(t.report.gaps_reverted, id);
}

} // verus!
