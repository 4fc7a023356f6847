//! Changing code from a request in words: one plan, applied as a whole, measured,
//! and kept or rolled back. The flow is a state machine: [`CodeRun::action`] says
//! what is to be done next, and [`CodeRun::advance`] takes what came of it.

use vstd::prelude::*;

use crate::modify::{
    add_once, copy_file_errors, errors_total, regressed, show, shown, total, with_item, worse, FileErrors,
    FileErrorsView,
};
use crate::text::{
    add_item, copy_text_option, copy_texts, decimal, join, joined, number_text, same, trim, trimmed,
};

verus! {

/// A file to be rewritten.
#[derive(Debug, PartialEq, Eq)]
pub struct PlannedChange {
    pub file: String,
    /// The complete new contents.
    pub content: String,
}

/// What a [`PlannedChange`] holds.
#[verifier::ext_equal]
pub struct PlannedChangeView {
    pub file: Seq<char>,
    pub content: Seq<char>,
}

impl DeepView for PlannedChange {
    type V = PlannedChangeView;

    open spec fn deep_view(&self) -> PlannedChangeView {
        PlannedChangeView {
            file: self.file@,
            content: self.content@,
        }
    }
}

impl Clone for PlannedChange {
    fn clone(&self) -> (r: Self)
        ensures
            r.deep_view() == self.deep_view(),
    {
        PlannedChange {
            file: self.file.clone(),
            content: self.content.clone(),
        }
    }
}

/// How far verification reached.
#[derive(Debug, Clone, Copy, PartialEq, Eq, Structural)]
pub enum Verified {
    /// Build and host tests: no board was there to run the target tests.
    HostOnly,
    /// Build, host tests, and target tests on a board.
    WithTarget,
}

/// The measured state of a project: what compiles, and what passes.
#[derive(Debug, PartialEq, Eq)]
pub struct CodeObs {
    pub build_errors: Vec<FileErrors>,
    /// `None` where there was nothing to run.
    pub host_failures: Option<usize>,
    /// `None` where no board was connected.
    pub target_failures: Option<usize>,
}

/// What a [`CodeObs`] holds.
#[verifier::ext_equal]
pub struct CodeObsView {
    pub build_errors: Seq<FileErrorsView>,
    pub host_failures: Option<usize>,
    pub target_failures: Option<usize>,
}

impl DeepView for CodeObs {
    type V = CodeObsView;

    open spec fn deep_view(&self) -> CodeObsView {
        CodeObsView {
            build_errors: self.build_errors.deep_view(),
            host_failures: self.host_failures,
            target_failures: self.target_failures,
        }
    }
}

impl Clone for CodeObs {
    fn clone(&self) -> (r: Self)
        ensures
            r.deep_view() == self.deep_view(),
    {
        CodeObs {
            build_errors: copy_file_errors(&self.build_errors),
            host_failures: self.host_failures,
            target_failures: self.target_failures,
        }
    }
}

impl Default for CodeObs {
    fn default() -> (r: Self)
        ensures
            r.deep_view() == (CodeObsView {
                build_errors: Seq::empty(),
                host_failures: None,
                target_failures: None,
            }),
    {
        CodeObs {
            build_errors: Vec::new(),
            host_failures: None,
            target_failures: None,
        }
    }
}

/// What a run did.
#[derive(Debug, PartialEq, Eq)]
pub struct ModifyCodeReport {
    /// The code built and every test that ran passed.
    pub success: bool,
    /// How far verification reached.
    pub verified: Verified,
    /// Rounds that wrote something.
    pub rounds: usize,
    pub files_changed: Vec<String>,
    pub files_reverted: Vec<String>,
    pub files_skipped: Vec<String>,
    pub build_errors_before: usize,
    pub build_errors_after: usize,
    pub host_failures_before: Option<usize>,
    pub host_failures_after: Option<usize>,
    pub target_failures_before: Option<usize>,
    pub target_failures_after: Option<usize>,
    /// What could not be checked.
    pub caveats: Vec<String>,
    pub log: Vec<String>,
    /// Why the run could not start, or that nothing was proposed.
    pub error: Option<String>,
}

/// What a [`ModifyCodeReport`] holds.
#[verifier::ext_equal]
pub struct ModifyCodeReportView {
    pub success: bool,
    pub verified: Verified,
    pub rounds: usize,
    pub files_changed: Seq<Seq<char>>,
    pub files_reverted: Seq<Seq<char>>,
    pub files_skipped: Seq<Seq<char>>,
    pub build_errors_before: usize,
    pub build_errors_after: usize,
    pub host_failures_before: Option<usize>,
    pub host_failures_after: Option<usize>,
    pub target_failures_before: Option<usize>,
    pub target_failures_after: Option<usize>,
    pub caveats: Seq<Seq<char>>,
    pub log: Seq<Seq<char>>,
    pub error: Option<Seq<char>>,
}

impl DeepView for ModifyCodeReport {
    type V = ModifyCodeReportView;

    open spec fn deep_view(&self) -> ModifyCodeReportView {
        ModifyCodeReportView {
            success: self.success,
            verified: self.verified,
            rounds: self.rounds,
            files_changed: self.files_changed.deep_view(),
            files_reverted: self.files_reverted.deep_view(),
            files_skipped: self.files_skipped.deep_view(),
            build_errors_before: self.build_errors_before,
            build_errors_after: self.build_errors_after,
            host_failures_before: self.host_failures_before,
            host_failures_after: self.host_failures_after,
            target_failures_before: self.target_failures_before,
            target_failures_after: self.target_failures_after,
            caveats: self.caveats.deep_view(),
            log: self.log.deep_view(),
            error: self.error.deep_view(),
        }
    }
}

impl Clone for ModifyCodeReport {
    fn clone(&self) -> (r: Self)
        ensures
            r.deep_view() == self.deep_view(),
    {
        ModifyCodeReport {
            success: self.success,
            verified: self.verified,
            rounds: self.rounds,
            files_changed: copy_texts(&self.files_changed),
            files_reverted: copy_texts(&self.files_reverted),
            files_skipped: copy_texts(&self.files_skipped),
            build_errors_before: self.build_errors_before,
            build_errors_after: self.build_errors_after,
            host_failures_before: self.host_failures_before,
            host_failures_after: self.host_failures_after,
            target_failures_before: self.target_failures_before,
            target_failures_after: self.target_failures_after,
            caveats: copy_texts(&self.caveats),
            log: copy_texts(&self.log),
            error: copy_text_option(&self.error),
        }
    }
}

/// Nothing is wrong with what was measured.
pub open spec fn clean(obs: CodeObsView) -> bool {
    &&& errors_total(obs.build_errors) == 0
    &&& obs.host_failures matches Some(f) ==> f == 0
    &&& obs.target_failures matches Some(f) ==> f == 0
}

impl CodeObs {
    /// The build's errors can be counted.
    pub open spec fn countable(&self) -> bool {
        errors_total(self.deep_view().build_errors) <= usize::MAX
    }

    /// Whether nothing is wrong with what was measured.
    pub fn is_clean(&self) -> (r: bool)
        requires
            self.countable(),
        ensures
            r == clean(self.deep_view()),
    {
        let host = match self.host_failures {
            Some(f) => f == 0,
            None => true,
        };
        let target = match self.target_failures {
            Some(f) => f == 0,
            None => true,
        };
        total(&self.build_errors) == 0 && host && target
    }
}

/// The report of a run that has not begun.
pub open spec fn blank_report() -> ModifyCodeReportView {
    ModifyCodeReportView {
        success: false,
        verified: Verified::HostOnly,
        rounds: 0,
        files_changed: Seq::empty(),
        files_reverted: Seq::empty(),
        files_skipped: Seq::empty(),
        build_errors_before: 0,
        build_errors_after: 0,
        host_failures_before: None,
        host_failures_after: None,
        target_failures_before: None,
        target_failures_after: None,
        caveats: Seq::empty(),
        log: Seq::empty(),
        error: None,
    }
}

/// A heading with the list behind it; nothing for an empty list.
pub open spec fn listed(heading: Seq<char>, items: Seq<Seq<char>>) -> Seq<char> {
    if items.len() == 0 {
        Seq::empty()
    } else {
        heading + ":\n  "@ + joined(items, "\n  "@) + "\n"@
    }
}

/// Appends a heading with the list behind it.
pub fn append_listed(out: &mut String, heading: &str, items: &Vec<String>)
    ensures
        final(out)@ == old(out)@ + listed(heading@, items.deep_view()),
{
    let ghost start = out@;
    assert(items.deep_view().len() == items@.len());
    if items.len() > 0 {
        out.append(heading);
        out.append(":\n  ");
        let all = join(items, "\n  ");
        out.append(all.as_str());
        out.append("\n");
    }
    assert(out@ =~= start + listed(heading@, items.deep_view()));
}

/// One line for each of the first `n` notes.
pub open spec fn notes_upto(caveats: Seq<Seq<char>>, n: int) -> Seq<char>
    decreases n,
{
    if n <= 0 {
        Seq::empty()
    } else {
        notes_upto(caveats, n - 1) + ("note: "@ + caveats[n - 1] + "\n"@)
    }
}

/// A report in words.
pub open spec fn code_summary(r: ModifyCodeReportView) -> Seq<char> {
    (match r.error {
        Some(e) => "Modify: "@ + e + "\n"@,
        None => Seq::empty(),
    }) + listed("changed"@, r.files_changed) + listed(
        "rolled back (the project got worse)"@,
        r.files_reverted,
    ) + listed("skipped"@, r.files_skipped) + ("verify: build "@
            + decimal(r.build_errors_before as int)
            + " → "@
            + decimal(r.build_errors_after as int)
            + " error(s), host tests "@
            + shown(r.host_failures_before)
            + " → "@
            + shown(r.host_failures_after)
            + ", target tests "@
            + shown(r.target_failures_before)
            + " → "@
            + shown(r.target_failures_after)
            + "\n"@) + notes_upto(r.caveats, r.caveats.len() as int)
}

impl ModifyCodeReport {
    /// The report of a run that has not begun.
    pub fn new() -> (r: Self)
        ensures
            r.deep_view() == blank_report(),
    {
        let r = ModifyCodeReport {
            success: false,
            verified: Verified::HostOnly,
            rounds: 0,
            files_changed: Vec::new(),
            files_reverted: Vec::new(),
            files_skipped: Vec::new(),
            build_errors_before: 0,
            build_errors_after: 0,
            host_failures_before: None,
            host_failures_after: None,
            target_failures_before: None,
            target_failures_after: None,
            caveats: Vec::new(),
            log: Vec::new(),
            error: None,
        };
        assert(r.files_changed.deep_view() =~= Seq::empty());
        assert(r.files_reverted.deep_view() =~= Seq::empty());
        assert(r.files_skipped.deep_view() =~= Seq::empty());
        assert(r.caveats.deep_view() =~= Seq::empty());
        assert(r.log.deep_view() =~= Seq::empty());
        r
    }

    /// The report in words.
    pub fn summary(&self) -> (r: String)
        ensures
            r@ == code_summary(self.deep_view()),
    {
        let ghost v = self.deep_view();
        let mut out = String::new();
        assert(out@ =~= Seq::empty());
        if let Some(error) = &self.error {
            out.append("Modify: ");
            out.append(error.as_str());
            out.append("\n");
        }
        let ghost head = match v.error {
            Some(e) => "Modify: "@ + e + "\n"@,
            None => Seq::empty(),
        };
        assert(out@ =~= head);
        append_listed(&mut out, "changed", &self.files_changed);
        append_listed(&mut out, "rolled back (the project got worse)", &self.files_reverted);
        append_listed(&mut out, "skipped", &self.files_skipped);
        let b0 = number_text(self.build_errors_before);
        let b1 = number_text(self.build_errors_after);
        let h0 = show(self.host_failures_before);
        let h1 = show(self.host_failures_after);
        let t0 = show(self.target_failures_before);
        let t1 = show(self.target_failures_after);
        let mut line = "verify: build ".to_owned();
        line.append(b0.as_str());
        line.append(" → ");
        line.append(b1.as_str());
        line.append(" error(s), host tests ");
        line.append(h0.as_str());
        line.append(" → ");
        line.append(h1.as_str());
        line.append(", target tests ");
        line.append(t0.as_str());
        line.append(" → ");
        line.append(t1.as_str());
        line.append("\n");
        out.append(line.as_str());
        let ghost start = out@;
        let ghost notes = v.caveats;
        let mut i: usize = 0;
        assert(out@ =~= start + notes_upto(notes, 0));
        while i < self.caveats.len()
            invariant
                i <= self.caveats@.len(),
                notes == self.caveats.deep_view(),
                out@ == start + notes_upto(notes, i as int),
            decreases self.caveats@.len() - i,
        {
            assert(notes[i as int] == self.caveats[i as int]@);
            out.append("note: ");
            out.append(self.caveats[i].as_str());
            out.append("\n");
            assert(out@ =~= start + notes_upto(notes, i + 1));
            i = i + 1;
        }
        out
    }
}

// ---------------------------------------------------------------------------
// The run
// ---------------------------------------------------------------------------

/// Where a run stands.
#[derive(Debug, Clone, Copy, PartialEq, Eq, Structural)]
pub enum CodePhase {
    /// It waits for the plan.
    Planning,
    /// It waits for the measurement before the change.
    Baseline,
    /// It writes the files of the plan, one after the other.
    Writing,
    /// It waits for the measurement of the change.
    Verdict,
    /// It puts the files back, one after the other.
    Restoring,
    /// It waits for a measurement of what was put back.
    Recheck,
    /// The report is complete.
    Done,
}

/// The state of a run.
#[derive(Debug, PartialEq, Eq)]
pub struct CodeRun {
    pub phase: CodePhase,
    /// A bound on the rounds.
    pub max_rounds: usize,
    /// The usable changes of the plan.
    pub changes: Vec<PlannedChange>,
    /// The change, or the file to put back, that is next.
    pub next: usize,
    /// The files that were written.
    pub applied: Vec<String>,
    /// What each file held before the run.
    pub backups: Vec<(String, String)>,
    /// The first measurement.
    pub before: Option<CodeObs>,
    /// The latest measurement.
    pub current: CodeObs,
    pub rounds: usize,
    pub report: ModifyCodeReport,
}

/// What a [`CodeRun`] holds.
#[verifier::ext_equal]
pub struct CodeRunView {
    pub phase: CodePhase,
    pub max_rounds: usize,
    pub changes: Seq<PlannedChangeView>,
    pub next: usize,
    pub applied: Seq<Seq<char>>,
    pub backups: Seq<(Seq<char>, Seq<char>)>,
    pub before: Option<CodeObsView>,
    pub current: CodeObsView,
    pub rounds: usize,
    pub report: ModifyCodeReportView,
}

impl DeepView for CodeRun {
    type V = CodeRunView;

    open spec fn deep_view(&self) -> CodeRunView {
        CodeRunView {
            phase: self.phase,
            max_rounds: self.max_rounds,
            changes: self.changes.deep_view(),
            next: self.next,
            applied: self.applied.deep_view(),
            backups: self.backups.deep_view(),
            before: self.before.deep_view(),
            current: self.current.deep_view(),
            rounds: self.rounds,
            report: self.report.deep_view(),
        }
    }
}

/// What a run wants done next.
#[derive(Debug, PartialEq, Eq)]
pub enum CodeAction {
    /// Ask for a plan.
    Plan,
    /// Build the project and run its tests.
    Measure,
    /// Write the file, and where `back_up` holds read it first.
    Write { file: String, content: String, back_up: bool },
    /// Put the file back.
    Restore { file: String, original: Option<String> },
    /// The report is complete.
    Finish,
}

/// What a [`CodeAction`] holds.
#[verifier::ext_equal]
pub enum CodeActionView {
    Plan,
    Measure,
    Write { file: Seq<char>, content: Seq<char>, back_up: bool },
    Restore { file: Seq<char>, original: Option<Seq<char>> },
    Finish,
}

impl DeepView for CodeAction {
    type V = CodeActionView;

    open spec fn deep_view(&self) -> CodeActionView {
        match self {
            CodeAction::Plan => CodeActionView::Plan,
            CodeAction::Measure => CodeActionView::Measure,
            CodeAction::Write { file, content, back_up } => CodeActionView::Write {
                file: file@,
                content: content@,
                back_up: *back_up,
            },
            CodeAction::Restore { file, original } => CodeActionView::Restore {
                file: file@,
                original: original.deep_view(),
            },
            CodeAction::Finish => CodeActionView::Finish,
        }
    }
}

/// What came of an action.
#[derive(Debug, PartialEq, Eq)]
pub enum CodeEvent {
    /// The plan, or that there is none.
    Planned(Option<Vec<PlannedChange>>),
    /// A measurement.
    Measured(CodeObs),
    /// What the file held before, where it was read, and whether it was written.
    Written { original: Option<String>, outcome: Result<(), String> },
    /// The file was put back.
    Restored,
}

/// What a [`CodeEvent`] holds.
#[verifier::ext_equal]
pub enum CodeEventView {
    Planned(Option<Seq<PlannedChangeView>>),
    Measured(CodeObsView),
    Written { original: Option<Seq<char>>, written: bool },
    Restored,
}

impl DeepView for CodeEvent {
    type V = CodeEventView;

    open spec fn deep_view(&self) -> CodeEventView {
        match self {
            CodeEvent::Planned(plan) => CodeEventView::Planned(plan.deep_view()),
            CodeEvent::Measured(obs) => CodeEventView::Measured(obs.deep_view()),
            CodeEvent::Written { original, outcome } => CodeEventView::Written {
                original: original.deep_view(),
                written: outcome is Ok,
            },
            CodeEvent::Restored => CodeEventView::Restored,
        }
    }
}

/// The change says something.
pub open spec fn usable(c: PlannedChangeView) -> bool {
    trimmed(c.content).len() > 0
}

/// The usable ones of the first `n` changes.
pub open spec fn usable_upto(plan: Seq<PlannedChangeView>, n: int) -> Seq<PlannedChangeView>
    decreases n,
{
    if n <= 0 {
        Seq::empty()
    } else if usable(plan[n - 1]) {
        usable_upto(plan, n - 1).push(plan[n - 1])
    } else {
        usable_upto(plan, n - 1)
    }
}

/// The files of the first `n` changes whose change is empty.
pub open spec fn empty_upto(plan: Seq<PlannedChangeView>, n: int) -> Seq<Seq<char>>
    decreases n,
{
    if n <= 0 {
        Seq::empty()
    } else if usable(plan[n - 1]) {
        empty_upto(plan, n - 1)
    } else {
        empty_upto(plan, n - 1).push(plan[n - 1].file)
    }
}

/// The log of reading the first `n` changes.
pub open spec fn skips_upto(plan: Seq<PlannedChangeView>, n: int) -> Seq<Seq<char>>
    decreases n,
{
    if n <= 0 {
        Seq::empty()
    } else if usable(plan[n - 1]) {
        skips_upto(plan, n - 1)
    } else {
        skips_upto(plan, n - 1).push("skip "@ + plan[n - 1].file + ": the plan was empty"@)
    }
}

/// The content that the last of the first `n` changes to the file gives it.
pub open spec fn content_upto(changes: Seq<PlannedChangeView>, file: Seq<char>, n: int) -> Seq<char>
    decreases n,
{
    if n <= 0 {
        Seq::empty()
    } else if changes[n - 1].file == file {
        changes[n - 1].content
    } else {
        content_upto(changes, file, n - 1)
    }
}

fn content_for(changes: &Vec<PlannedChange>, file: &str) -> (r: String)
    ensures
        r@ == content_upto(changes.deep_view(), file@, changes.deep_view().len() as int),
{
    let ghost all = changes.deep_view();
    let mut i: usize = changes.len();
    while i > 0
        invariant
            i <= changes@.len(),
            all == changes.deep_view(),
            content_upto(all, file@, i as int) == content_upto(all, file@, all.len() as int),
        decreases i,
    {
        assert(all[i - 1] == changes[i - 1].deep_view());
        if same(changes[i - 1].file.as_str(), file) {
            return changes[i - 1].content.clone();
        }
        i = i - 1;
    }
    let none = String::new();
    assert(none@ =~= Seq::empty());
    none
}

/// What the file held before the run, from entry `k` on.
pub open spec fn backup_from(
    backups: Seq<(Seq<char>, Seq<char>)>,
    file: Seq<char>,
    k: int,
) -> Option<Seq<char>>
    decreases backups.len() - k,
{
    if k < 0 || k >= backups.len() {
        None
    } else if backups[k].0 == file {
        Some(backups[k].1)
    } else {
        backup_from(backups, file, k + 1)
    }
}

fn backup_of(backups: &Vec<(String, String)>, file: &str) -> (r: Option<String>)
    ensures
        r.deep_view() == backup_from(backups.deep_view(), file@, 0),
{
    let ghost all = backups.deep_view();
    let mut i: usize = 0;
    while i < backups.len()
        invariant
            i <= backups@.len(),
            all == backups.deep_view(),
            backup_from(all, file@, 0) == backup_from(all, file@, i as int),
        decreases backups@.len() - i,
    {
        assert(all[i as int] == (backups[i as int].0@, backups[i as int].1@));
        if same(backups[i].0.as_str(), file) {
            return Some(backups[i].1.clone());
        }
        i = i + 1;
    }
    None
}

/// The change made the project worse.
pub open spec fn code_rejected(before: CodeObsView, after: CodeObsView) -> bool {
    ||| errors_total(after.build_errors) > errors_total(before.build_errors)
    ||| regressed(before.host_failures, after.host_failures)
    ||| regressed(before.target_failures, after.target_failures)
}

/// What the log says of a change that is rolled back.
pub open spec fn rollback_note(before: CodeObsView, after: CodeObsView) -> Seq<char> {
    "rolled back: build errors "@
        + decimal(errors_total(before.build_errors) as int)
        + " → "@
        + decimal(errors_total(after.build_errors) as int)
        + ", host failures "@
        + shown(before.host_failures)
        + " → "@
        + shown(after.host_failures)
        + ", target failures "@
        + shown(before.target_failures)
        + " → "@
        + shown(after.target_failures)
}

/// Decides over a change: whether it made the project worse.
pub fn reject_round(before: &CodeObs, after: &CodeObs) -> (r: bool)
    requires
        before.countable(),
        after.countable(),
    ensures
        r == code_rejected(before.deep_view(), after.deep_view()),
{
    total(&after.build_errors) > total(&before.build_errors) || worse(
        before.host_failures,
        after.host_failures,
    ) || worse(before.target_failures, after.target_failures)
}

fn note_rollback(before: &CodeObs, after: &CodeObs) -> (r: String)
    requires
        before.countable(),
        after.countable(),
    ensures
        r@ == rollback_note(before.deep_view(), after.deep_view()),
{
    let b0 = number_text(total(&before.build_errors));
    let b1 = number_text(total(&after.build_errors));
    let h0 = show(before.host_failures);
    let h1 = show(after.host_failures);
    let t0 = show(before.target_failures);
    let t1 = show(after.target_failures);
    let mut s = "rolled back: build errors ".to_owned();
    s.append(b0.as_str());
    s.append(" → ");
    s.append(b1.as_str());
    s.append(", host failures ");
    s.append(h0.as_str());
    s.append(" → ");
    s.append(h1.as_str());
    s.append(", target failures ");
    s.append(t0.as_str());
    s.append(" → ");
    s.append(t1.as_str());
    s
}

/// The list with each of the first `n` items behind it, unless it is there
/// already.
pub open spec fn with_items_upto(list: Seq<Seq<char>>, items: Seq<Seq<char>>, n: int) -> Seq<Seq<char>>
    decreases n,
{
    if n <= 0 {
        list
    } else {
        with_item(with_items_upto(list, items, n - 1), items[n - 1])
    }
}

fn add_each(list: &mut Vec<String>, items: &Vec<String>)
    ensures
        final(list).deep_view() == with_items_upto(
            old(list).deep_view(),
            items.deep_view(),
            items.deep_view().len() as int,
        ),
{
    let ghost start = list.deep_view();
    let ghost all = items.deep_view();
    let mut i: usize = 0;
    while i < items.len()
        invariant
            i <= items@.len(),
            all == items.deep_view(),
            list.deep_view() == with_items_upto(start, all, i as int),
        decreases items@.len() - i,
    {
        assert(all[i as int] == items[i as int]@);
        add_once(list, items[i].as_str());
        i = i + 1;
    }
}

/// The notes on what could not be checked.
pub open spec fn code_caveats(after: CodeObsView) -> Seq<Seq<char>> {
    (if after.target_failures is None {
        seq!["no board connected: verified against the host only, target tests not run"@]
    } else {
        Seq::empty()
    }) + (if after.host_failures is None {
        seq!["no host tests to run for this project"@]
    } else {
        Seq::empty()
    })
}

/// How far verification reached, by the last measurement.
pub open spec fn reached(after: CodeObsView) -> Verified {
    if after.target_failures is Some {
        Verified::WithTarget
    } else {
        Verified::HostOnly
    }
}

/// A run that has not measured anything has measured nothing wrong.
pub open spec fn no_obs() -> CodeObsView {
    CodeObsView { build_errors: Seq::empty(), host_failures: None, target_failures: None }
}

/// The run with its report completed.
pub open spec fn code_done(s: CodeRunView) -> CodeRunView {
    let before = match s.before {
        Some(b) => b,
        None => no_obs(),
    };
    let after = s.current;
    CodeRunView {
        phase: CodePhase::Done,
        report: ModifyCodeReportView {
            rounds: s.rounds,
            build_errors_before: errors_total(before.build_errors) as usize,
            build_errors_after: errors_total(after.build_errors) as usize,
            host_failures_before: before.host_failures,
            host_failures_after: after.host_failures,
            target_failures_before: before.target_failures,
            target_failures_after: after.target_failures,
            verified: reached(after),
            caveats: s.report.caveats + code_caveats(after),
            success: clean(after) && s.report.error is None,
            log: s.report.log.push(
                match reached(after) {
                    Verified::WithTarget => "verified: build, host tests, and target tests"@,
                    Verified::HostOnly => "verified: build and host tests (target tests not run)"@,
                },
            ),
            ..s.report
        },
        ..s
    }
}

/// The run with the plan taken in.
pub open spec fn with_plan(s: CodeRunView, plan: Seq<PlannedChangeView>) -> CodeRunView {
    let changes = usable_upto(plan, plan.len() as int);
    let skipped = s.report.files_skipped + empty_upto(plan, plan.len() as int);
    let log = s.report.log + skips_upto(plan, plan.len() as int);
    if changes.len() == 0 {
        CodeRunView {
            phase: CodePhase::Done,
            report: ModifyCodeReportView {
                files_skipped: skipped,
                log,
                error: Some("the model proposed no usable changes; nothing was written"@),
                ..s.report
            },
            ..s
        }
    } else {
        let ready = CodeRunView {
            phase: CodePhase::Baseline,
            changes,
            report: ModifyCodeReportView {
                files_skipped: skipped,
                log: log.push("plan: "@ + decimal(changes.len() as int) + " file(s)"@),
                ..s.report
            },
            ..s
        };
        if s.max_rounds == 0 {
            code_done(ready)
        } else {
            ready
        }
    }
}

/// The run after a file was written, or was not.
pub open spec fn with_written(s: CodeRunView, original: Option<Seq<char>>, written: bool) -> CodeRunView {
    let file = s.changes[s.next as int].file;
    let next = CodeRunView {
        next: (s.next + 1) as usize,
        backups: match original {
            Some(text) => if backup_from(s.backups, file, 0) is None {
                s.backups.push((file, text))
            } else {
                s.backups
            },
            None => s.backups,
        },
        applied: if written {
            s.applied.push(file)
        } else {
            s.applied
        },
        ..s
    };
    if s.next + 1 < s.changes.len() {
        next
    } else if next.applied.len() == 0 {
        code_done(next)
    } else {
        CodeRunView { phase: CodePhase::Verdict, rounds: 1, ..next }
    }
}

/// The run after the change was measured: kept as a whole, or rolled back as a
/// whole.
pub open spec fn with_verdict(s: CodeRunView, obs: CodeObsView) -> CodeRunView {
    let measured = CodeRunView { current: obs, next: 0, ..s };
    if code_rejected(s.current, obs) {
        CodeRunView {
            phase: CodePhase::Restoring,
            report: ModifyCodeReportView {
                log: s.report.log.push(rollback_note(s.current, obs)),
                ..s.report
            },
            ..measured
        }
    } else {
        code_done(
            CodeRunView {
                report: ModifyCodeReportView {
                    files_changed: with_items_upto(
                        s.report.files_changed,
                        s.applied,
                        s.applied.len() as int,
                    ),
                    ..s.report
                },
                ..measured
            },
        )
    }
}

/// The run after a file was put back.
pub open spec fn with_restored(s: CodeRunView) -> CodeRunView {
    CodeRunView {
        phase: if s.next + 1 < s.applied.len() {
            CodePhase::Restoring
        } else {
            CodePhase::Recheck
        },
        next: (s.next + 1) as usize,
        report: ModifyCodeReportView {
            files_reverted: with_item(s.report.files_reverted, s.applied[s.next as int]),
            ..s.report
        },
        ..s
    }
}

/// The state that a run goes to: an event that it does not wait for changes
/// nothing.
pub open spec fn code_step(s: CodeRunView, event: CodeEventView) -> CodeRunView {
    match (s.phase, event) {
        (CodePhase::Planning, CodeEventView::Planned(None)) => CodeRunView {
            phase: CodePhase::Done,
            report: ModifyCodeReportView { error: Some("the model proposed no changes; nothing was written"@), ..s.report },
            ..s
        },
        (CodePhase::Planning, CodeEventView::Planned(Some(plan))) => with_plan(s, plan),
        (CodePhase::Baseline, CodeEventView::Measured(obs)) => CodeRunView {
            phase: CodePhase::Writing,
            next: 0,
            before: Some(obs),
            current: obs,
            ..s
        },
        (CodePhase::Writing, CodeEventView::Written { original, written }) => with_written(
            s,
            original,
            written,
        ),
        (CodePhase::Verdict, CodeEventView::Measured(obs)) => with_verdict(s, obs),
        (CodePhase::Restoring, CodeEventView::Restored) => with_restored(s),
        (CodePhase::Recheck, CodeEventView::Measured(obs)) => code_done(
            CodeRunView { current: obs, ..s },
        ),
        _ => s,
    }
}

/// What a run wants done next.
pub open spec fn code_action(s: CodeRunView) -> CodeActionView {
    match s.phase {
        CodePhase::Planning => CodeActionView::Plan,
        CodePhase::Baseline | CodePhase::Verdict | CodePhase::Recheck => CodeActionView::Measure,
        CodePhase::Writing => {
            let file = s.changes[s.next as int].file;
            CodeActionView::Write {
                file,
                content: content_upto(s.changes, file, s.changes.len() as int),
                back_up: backup_from(s.backups, file, 0) is None,
            }
        },
        CodePhase::Restoring => CodeActionView::Restore {
            file: s.applied[s.next as int],
            original: backup_from(s.backups, s.applied[s.next as int], 0),
        },
        CodePhase::Done => CodeActionView::Finish,
    }
}

impl CodeRunView {
    /// What holds in every state of a run.
    pub open spec fn wf(self) -> bool {
        &&& self.before matches Some(b) ==> errors_total(b.build_errors) <= usize::MAX
        &&& errors_total(self.current.build_errors) <= usize::MAX
        &&& self.phase == CodePhase::Writing ==> self.next < self.changes.len()
        &&& self.phase == CodePhase::Restoring ==> self.next < self.applied.len()
        &&& self.phase == CodePhase::Verdict ==> self.applied.len() > 0
        &&& self.phase == CodePhase::Baseline ==> self.changes.len() > 0
        &&& self.changes.len() <= usize::MAX
        &&& self.applied.len() <= usize::MAX
    }
}

/// The event can be taken in: what it measured can be counted.
pub open spec fn acceptable(event: CodeEventView) -> bool {
    event matches CodeEventView::Measured(obs) ==> errors_total(obs.build_errors) <= usize::MAX
}

/// A run that waits for its plan.
pub open spec fn code_start(max_rounds: usize) -> CodeRunView {
    CodeRunView {
        phase: CodePhase::Planning,
        max_rounds,
        changes: Seq::empty(),
        next: 0,
        applied: Seq::empty(),
        backups: Seq::empty(),
        before: None,
        current: no_obs(),
        rounds: 0,
        report: blank_report(),
    }
}

impl CodeRun {
    /// A run that waits for its plan.
    pub fn new(max_rounds: usize) -> (r: Self)
        ensures
            r.deep_view() == code_start(max_rounds),
            r.deep_view().wf(),
    {
        let r = CodeRun {
            phase: CodePhase::Planning,
            max_rounds,
            changes: Vec::new(),
            next: 0,
            applied: Vec::new(),
            backups: Vec::new(),
            before: None,
            current: CodeObs { build_errors: Vec::new(), host_failures: None, target_failures: None },
            rounds: 0,
            report: ModifyCodeReport::new(),
        };
        assert(r.changes.deep_view() =~= Seq::empty());
        assert(r.applied.deep_view() =~= Seq::empty());
        assert(r.backups.deep_view() =~= Seq::empty());
        assert(r.current.build_errors.deep_view() =~= Seq::empty());
        r
    }

    /// What is to be done next.
    pub fn action(&self) -> (r: CodeAction)
        requires
            self.deep_view().wf(),
        ensures
            r.deep_view() == code_action(self.deep_view()),
    {
        match self.phase {
            CodePhase::Planning => CodeAction::Plan,
            CodePhase::Baseline | CodePhase::Verdict | CodePhase::Recheck => CodeAction::Measure,
            CodePhase::Writing => {
                assert(self.deep_view().changes.len() == self.changes@.len());
                assert(self.deep_view().changes[self.next as int]
                    == self.changes[self.next as int].deep_view());
                let file = self.changes[self.next].file.as_str();
                let content = content_for(&self.changes, file);
                let back_up = match backup_of(&self.backups, file) {
                    Some(_) => false,
                    None => true,
                };
                CodeAction::Write { file: file.to_owned(), content, back_up }
            },
            CodePhase::Restoring => {
                assert(self.deep_view().applied.len() == self.applied@.len());
                let file = self.applied[self.next].as_str();
                CodeAction::Restore { file: file.to_owned(), original: backup_of(&self.backups, file) }
            },
            CodePhase::Done => CodeAction::Finish,
        }
    }

    fn complete(self) -> (r: Self)
        requires
            self.deep_view().wf(),
        ensures
            r.deep_view() == code_done(self.deep_view()),
            r.deep_view().wf(),
    {
        let ghost s = self.deep_view();
        let mut run = self;
        run.phase = CodePhase::Done;
        run.report.rounds = run.rounds;
        match &run.before {
            Some(b) => {
                run.report.build_errors_before = total(&b.build_errors);
                run.report.host_failures_before = b.host_failures;
                run.report.target_failures_before = b.target_failures;
            },
            None => {
                run.report.build_errors_before = 0;
                run.report.host_failures_before = None;
                run.report.target_failures_before = None;
            },
        }
        run.report.build_errors_after = total(&run.current.build_errors);
        run.report.host_failures_after = run.current.host_failures;
        run.report.target_failures_after = run.current.target_failures;
        let clean_now = run.current.is_clean();
        let no_error = match &run.report.error {
            Some(_) => false,
            None => true,
        };
        run.report.success = clean_now && no_error;
        let target = match run.current.target_failures {
            Some(_) => true,
            None => false,
        };
        let host = match run.current.host_failures {
            Some(_) => true,
            None => false,
        };
        if !target {
            add_item(&mut run.report.caveats, "no board connected: verified against the host only, target tests not run".to_owned());
        }
        if !host {
            add_item(&mut run.report.caveats, "no host tests to run for this project".to_owned());
        }
        assert(run.report.caveats.deep_view() =~= s.report.caveats + code_caveats(s.current));
        if target {
            run.report.verified = Verified::WithTarget;
            add_item(&mut run.report.log, "verified: build, host tests, and target tests".to_owned());
        } else {
            run.report.verified = Verified::HostOnly;
            add_item(&mut run.report.log, "verified: build and host tests (target tests not run)".to_owned());
        }
        run
    }

    fn take_plan(self, plan: Vec<PlannedChange>) -> (r: Self)
        requires
            self.deep_view().wf(),
        ensures
            r.deep_view() == with_plan(self.deep_view(), plan.deep_view()),
            r.deep_view().wf(),
    {
        let ghost s = self.deep_view();
        let ghost all = plan.deep_view();
        let mut run = self;
        let mut changes: Vec<PlannedChange> = Vec::new();
        assert(changes.deep_view() =~= Seq::empty());
        let mut i: usize = 0;
        assert(run.report.files_skipped.deep_view() =~= s.report.files_skipped + empty_upto(all, 0));
        assert(run.report.log.deep_view() =~= s.report.log + skips_upto(all, 0));
        while i < plan.len()
            invariant
                i <= plan@.len(),
                all == plan.deep_view(),
                changes.deep_view() == usable_upto(all, i as int),
                run.deep_view() == (CodeRunView {
                    report: ModifyCodeReportView {
                        files_skipped: s.report.files_skipped + empty_upto(all, i as int),
                        log: s.report.log + skips_upto(all, i as int),
                        ..s.report
                    },
                    ..s
                }),
            decreases plan@.len() - i,
        {
            assert(all[i as int] == plan[i as int].deep_view());
            if trim(plan[i].content.as_str()).unicode_len() > 0 {
                add_item(&mut changes, plan[i].clone());
            } else {
                let file = plan[i].file.as_str();
                add_item(&mut run.report.files_skipped, file.to_owned());
                let mut note = "skip ".to_owned();
                note.append(file);
                note.append(": the plan was empty");
                add_item(&mut run.report.log, note);
            }
            assert(run.report.files_skipped.deep_view() =~= s.report.files_skipped + empty_upto(
                all,
                i + 1,
            ));
            assert(run.report.log.deep_view() =~= s.report.log + skips_upto(all, i + 1));
            i = i + 1;
        }
        assert(changes.deep_view().len() == changes@.len());
        if changes.len() == 0 {
            run.phase = CodePhase::Done;
            run.report.error = Some("the model proposed no usable changes; nothing was written".to_owned());
            return run;
        }
        let count = number_text(changes.len());
        let mut note = "plan: ".to_owned();
        note.append(count.as_str());
        note.append(" file(s)");
        add_item(&mut run.report.log, note);
        run.changes = changes;
        run.phase = CodePhase::Baseline;
        if run.max_rounds == 0 {
            run.complete()
        } else {
            run
        }
    }

    fn take_written(self, original: Option<String>, written: bool) -> (r: Self)
        requires
            self.deep_view().wf(),
            self.phase == CodePhase::Writing,
        ensures
            r.deep_view() == with_written(self.deep_view(), original.deep_view(), written),
            r.deep_view().wf(),
    {
        let ghost s = self.deep_view();
        let mut run = self;
        assert(s.changes.len() == run.changes@.len());
        assert(s.changes[s.next as int] == run.changes[s.next as int].deep_view());
        let file = run.changes[run.next].file.clone();
        if let Some(text) = original {
            if backup_of(&run.backups, file.as_str()).is_none() {
                add_item(&mut run.backups, (file.clone(), text));
            }
        }
        if written {
            add_item(&mut run.applied, file);
        }
        let applied: usize = run.applied.len();
        assert(run.applied.deep_view().len() == applied);
        run.next = run.next + 1;
        if run.next < run.changes.len() {
            run
        } else if applied == 0 {
            run.phase = CodePhase::Baseline;
            run.complete()
        } else {
            run.phase = CodePhase::Verdict;
            run.rounds = 1;
            run
        }
    }

    fn take_verdict(self, obs: CodeObs) -> (r: Self)
        requires
            self.deep_view().wf(),
            self.phase == CodePhase::Verdict,
            obs.countable(),
        ensures
            r.deep_view() == with_verdict(self.deep_view(), obs.deep_view()),
            r.deep_view().wf(),
    {
        let mut run = self;
        run.next = 0;
        if reject_round(&run.current, &obs) {
            let note = note_rollback(&run.current, &obs);
            add_item(&mut run.report.log, note);
            run.current = obs;
            run.phase = CodePhase::Restoring;
            run
        } else {
            run.current = obs;
            add_each(&mut run.report.files_changed, &run.applied);
            run.complete()
        }
    }

    fn take_restored(self) -> (r: Self)
        requires
            self.deep_view().wf(),
            self.phase == CodePhase::Restoring,
        ensures
            r.deep_view() == with_restored(self.deep_view()),
            r.deep_view().wf(),
    {
        let mut run = self;
        assert(run.applied.deep_view().len() == run.applied@.len());
        add_once(&mut run.report.files_reverted, run.applied[run.next].as_str());
        run.next = run.next + 1;
        if run.next < run.applied.len() {
            run
        } else {
            run.phase = CodePhase::Recheck;
            run
        }
    }

    /// Takes in what came of the action.
    pub fn advance(self, event: CodeEvent) -> (r: Self)
        requires
            self.deep_view().wf(),
            acceptable(event.deep_view()),
        ensures
            r.deep_view() == code_step(self.deep_view(), event.deep_view()),
            r.deep_view().wf(),
    {
        let mut run = self;
        match (run.phase, event) {
            (CodePhase::Planning, CodeEvent::Planned(None)) => {
                run.phase = CodePhase::Done;
                run.report.error = Some("the model proposed no changes; nothing was written".to_owned());
                run
            },
            (CodePhase::Planning, CodeEvent::Planned(Some(plan))) => run.take_plan(plan),
            (CodePhase::Baseline, CodeEvent::Measured(obs)) => {
                run.phase = CodePhase::Writing;
                run.next = 0;
                run.before = Some(obs.clone());
                run.current = obs;
                run
            },
            (CodePhase::Writing, CodeEvent::Written { original, outcome }) => {
                let written = match outcome {
                    Ok(_) => true,
                    Err(_) => false,
                };
                run.take_written(original, written)
            },
            (CodePhase::Verdict, CodeEvent::Measured(obs)) => run.take_verdict(obs),
            (CodePhase::Restoring, CodeEvent::Restored) => run.take_restored(),
            (CodePhase::Recheck, CodeEvent::Measured(obs)) => {
                run.current = obs;
                run.complete()
            },
            _ => run,
        }
    }
}

} // verus!
