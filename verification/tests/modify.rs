//! The modify flows: what is kept, what is rolled back, and what a report says.

use spire_build::generate::generate_hal_placeholder_source;
use spire_build::generate::SPIRE_HAL_STUB_SENTINEL;
use spire_build::contract::{parse_hal_contract_summary, summarize_hal_header};
use spire_build::modify::{total, worse, show, FileErrors};
use spire_build::modify_code::{
    CodeAction, CodeEvent, CodeObs, CodeRun, ModifyCodeReport, PlannedChange, Verified,
};
use spire_build::modify_contract::{
    contract_targets, hal_gaps, ContractAction, ContractChange, ContractEvent, ContractObs, ContractRun, Gap,
    Gaps, ModifyContractReport,
};
use spire_build::project::{Entry, ProjectTree};

/// A project with these files, and the directories that lead to them.
fn tree(files: &[(&str, &str)]) -> ProjectTree {
    let mut t = ProjectTree { root: "/p".to_string(), entries: Vec::new() };
    for (path, content) in files {
        put(&mut t, path, content);
    }
    t
}

/// Adds the directory, and those that lead to it.
fn put_dir(t: &mut ProjectTree, path: &str) {
    let mut dir = String::new();
    for part in path.split('/') {
        if !dir.is_empty() {
            dir.push('/');
        }
        dir.push_str(part);
        if !t.entries.iter().any(|e| e.path == dir) {
            t.entries.push(Entry { path: dir.clone(), is_dir: true, content: None });
        }
    }
}

/// Writes the file, with the directories that lead to it.
fn put(t: &mut ProjectTree, path: &str, content: &str) {
    if let Some(i) = path.rfind('/') {
        put_dir(t, &path[..i]);
    }
    t.entries.retain(|e| e.path != path);
    t.entries.push(Entry {
        path: path.to_string(),
        is_dir: false,
        content: Some(content.to_string()),
    });
}

fn errs(entries: &[(&str, usize)]) -> Vec<FileErrors> {
    entries
        .iter()
        .map(|(f, n)| FileErrors {
            file: f.to_string(),
            errors: (0..*n).map(|i| format!("{f}:{i}:1: error: boom")).collect(),
        })
        .collect()
}

/// The next of a script; the last one is given again and again.
fn step<T: Clone + Default>(script: &mut Vec<T>) -> T {
    let value = script.first().cloned().unwrap_or_default();
    if script.len() > 1 {
        script.remove(0);
    }
    value
}

/// Runs a change of code against scripted measurements, on files in memory.
/// Returns the report and how often it was built.
fn run_code(
    plan: Option<Vec<(&str, &str)>>,
    mut builds: Vec<Vec<FileErrors>>,
    mut host: Vec<Option<usize>>,
    mut target: Vec<Option<usize>>,
    disk: &mut Vec<(String, String)>,
) -> (ModifyCodeReport, usize) {
    let mut run = CodeRun::new(3);
    let mut built = 0;
    loop {
        let event = match run.action() {
            CodeAction::Plan => CodeEvent::Planned(plan.as_ref().map(|list| {
                list.iter()
                    .map(|(f, c)| PlannedChange { file: f.to_string(), content: c.to_string() })
                    .collect()
            })),
            CodeAction::Measure => {
                built += 1;
                CodeEvent::Measured(CodeObs {
                    build_errors: step(&mut builds),
                    host_failures: step(&mut host),
                    target_failures: step(&mut target),
                })
            }
            CodeAction::Write { file, content, back_up } => {
                let at = disk.iter().position(|(f, _)| *f == file);
                match at {
                    Some(i) => {
                        let original = if back_up { Some(disk[i].1.clone()) } else { None };
                        disk[i].1 = content;
                        CodeEvent::Written { original, outcome: Ok(()) }
                    }
                    None => CodeEvent::Written {
                        original: None,
                        outcome: Err("cannot read (no such file)".to_string()),
                    },
                }
            }
            CodeAction::Restore { file, original } => {
                if let Some(text) = original {
                    let i = disk.iter().position(|(f, _)| *f == file).unwrap();
                    disk[i].1 = text;
                }
                CodeEvent::Restored
            }
            CodeAction::Finish => return (run.report, built),
        };
        run = run.advance(event);
    }
}

fn project(contents: &str) -> Vec<(String, String)> {
    vec![("a.cpp".to_string(), contents.to_string())]
}

#[test]
fn keeps_a_change_that_builds_and_passes() {
    let mut disk = project("int broken;\n");
    let fixed = "int fixed() { return 0; }\n";
    let (report, _) = run_code(
        Some(vec![("a.cpp", fixed)]),
        vec![errs(&[]), errs(&[])],
        vec![Some(0), Some(0)],
        vec![None, None],
        &mut disk,
    );
    assert!(report.success, "{report:?}");
    assert_eq!(report.verified, Verified::HostOnly);
    assert_eq!(report.files_changed, vec!["a.cpp"]);
    assert!(report.files_reverted.is_empty());
    assert_eq!(disk[0].1, fixed);
    assert!(report.caveats.iter().any(|c| c.contains("no board connected")), "{:?}", report.caveats);
}

#[test]
fn modify_code_rolls_back_a_change_that_breaks_the_build() {
    let mut disk = project("int original;\n");
    let (report, _) = run_code(
        Some(vec![("a.cpp", "int broken( ;\n")]),
        vec![errs(&[]), errs(&[("a.cpp", 2)])],
        vec![Some(0), Some(0)],
        vec![None, None],
        &mut disk,
    );
    assert!(!report.success, "{report:?}");
    assert_eq!(report.files_reverted, vec!["a.cpp"]);
    assert!(report.files_changed.is_empty());
    assert_eq!(report.build_errors_before, 0);
    assert_eq!(report.build_errors_after, 2);
    assert_eq!(disk[0].1, "int original;\n");
}

#[test]
fn rolls_back_a_change_that_breaks_the_host_tests() {
    let mut disk = project("int original;\n");
    let (report, _) = run_code(
        Some(vec![("a.cpp", "int changed;\n")]),
        vec![errs(&[]), errs(&[])],
        vec![Some(0), Some(3)],
        vec![None, None],
        &mut disk,
    );
    assert!(!report.success);
    assert_eq!(report.files_reverted, vec!["a.cpp"]);
    assert_eq!(report.host_failures_before, Some(0));
    assert_eq!(report.host_failures_after, Some(3));
    assert_eq!(disk[0].1, "int original;\n");
}

#[test]
fn verifies_against_the_board_when_one_is_connected() {
    let mut disk = project("int original;\n");
    let (report, _) = run_code(
        Some(vec![("a.cpp", "int changed;\n")]),
        vec![errs(&[]), errs(&[])],
        vec![Some(0), Some(0)],
        vec![Some(0), Some(0)],
        &mut disk,
    );
    assert!(report.success, "{report:?}");
    assert_eq!(report.verified, Verified::WithTarget);
    assert_eq!(report.target_failures_after, Some(0));
    assert!(!report.caveats.iter().any(|c| c.contains("no board connected")), "{:?}", report.caveats);
    assert_eq!(disk[0].1, "int changed;\n");
}

#[test]
fn rolls_back_when_the_target_tests_regress() {
    let mut disk = project("int original;\n");
    let (report, _) = run_code(
        Some(vec![("a.cpp", "int changed;\n")]),
        vec![errs(&[]), errs(&[])],
        vec![Some(0), Some(0)],
        vec![Some(0), Some(2)],
        &mut disk,
    );
    assert!(!report.success);
    assert_eq!(report.files_reverted, vec!["a.cpp"]);
    assert_eq!(report.target_failures_after, Some(2));
    assert_eq!(disk[0].1, "int original;\n");
}

#[test]
fn writes_nothing_when_the_model_proposes_nothing() {
    let mut disk = Vec::new();
    let (report, built) = run_code(None, vec![errs(&[])], vec![], vec![], &mut disk);
    assert!(!report.success);
    assert!(report.error.is_some(), "{report:?}");
    assert_eq!(report.rounds, 0);
    assert_eq!(built, 0);
}

#[test]
fn measures_once_for_the_baseline_and_once_for_the_verdict() {
    let mut disk = project("int original;\n");
    let (report, built) = run_code(
        Some(vec![("a.cpp", "int changed;\n")]),
        vec![errs(&[]), errs(&[])],
        vec![Some(0), Some(0)],
        vec![None, None],
        &mut disk,
    );
    assert!(report.success, "{report:?}");
    assert_eq!(report.rounds, 1);
    assert_eq!(built, 2);
}

#[test]
fn an_empty_rewrite_is_skipped() {
    let mut disk = project("int original;\n");
    let (report, built) =
        run_code(Some(vec![("a.cpp", " \n")]), vec![errs(&[])], vec![], vec![], &mut disk);
    assert_eq!(report.files_skipped, vec!["a.cpp"]);
    assert_eq!(report.log, vec!["skip a.cpp: the plan was empty"]);
    assert_eq!(
        report.error.as_deref(),
        Some("the model proposed no usable changes; nothing was written")
    );
    assert_eq!(built, 0);
    assert_eq!(disk[0].1, "int original;\n");
}

#[test]
fn a_plan_goes_as_a_whole() {
    let mut disk = vec![
        ("a.cpp".to_string(), "a\n".to_string()),
        ("b.cpp".to_string(), "b\n".to_string()),
    ];
    let (report, built) = run_code(
        Some(vec![("a.cpp", "A\n"), ("b.cpp", "B\n"), ("c.cpp", "C\n")]),
        vec![errs(&[("a.cpp", 1)]), errs(&[("b.cpp", 2)]), errs(&[("a.cpp", 1)])],
        vec![None],
        vec![None],
        &mut disk,
    );
    assert_eq!(report.files_reverted, vec!["a.cpp", "b.cpp"]);
    assert!(report.files_changed.is_empty());
    assert_eq!(disk[0].1, "a\n");
    assert_eq!(disk[1].1, "b\n");
    assert_eq!(built, 3);
    assert_eq!((report.build_errors_before, report.build_errors_after), (1, 1));
    assert_eq!(
        report.log,
        vec![
            "plan: 3 file(s)",
            "rolled back: build errors 1 → 2, host failures not run → not run, target failures not run → not run",
            "verified: build and host tests (target tests not run)",
        ]
    );
}

#[test]
fn a_code_report_is_put_into_words() {
    let mut report = ModifyCodeReport::new();
    report.error = Some("no".to_string());
    report.files_changed = vec!["a".to_string(), "b".to_string()];
    report.build_errors_before = 2;
    report.host_failures_after = Some(0);
    report.caveats = vec!["c".to_string()];
    assert_eq!(
        report.summary(),
        "Modify: no\nchanged:\n  a\n  b\nverify: build 2 → 0 error(s), host tests not run → 0, target tests not run → not run\nnote: c\n"
    );
}

#[test]
fn counts_compare_only_where_both_ran() {
    assert!(worse(Some(0), Some(1)));
    assert!(!worse(Some(1), Some(1)));
    assert!(!worse(None, Some(4)));
    assert!(!worse(Some(4), None));
    assert_eq!(show(None), "not run");
    assert_eq!(show(Some(17)), "17");
    assert_eq!(total(&errs(&[("a", 2), ("b", 3)])), 5);
}

// ---------------------------------------------------------------------------
// Closing gaps
// ---------------------------------------------------------------------------

fn gap(platform: &str, iface: &str, missing: usize, drifted: usize) -> Gap {
    Gap {
        platform: platform.to_string(),
        interface: iface.to_string(),
        missing: (0..missing).map(|i| format!("m{i}")).collect(),
        drifted: (0..drifted).map(|i| format!("d{i}")).collect(),
        stub: false,
    }
}

fn gaps(list: Vec<Gap>) -> Gaps {
    Gaps { open: list }
}

/// Runs the closing of gaps against scripted measurements; every fill writes the
/// one implementation file. Returns the report and how often a fill was applied.
fn run_contract(
    mut script: Vec<Gaps>,
    mut builds: Vec<Vec<FileErrors>>,
    file: &mut Option<String>,
) -> (ModifyContractReport, usize) {
    let mut run = ContractRun::new(3);
    let mut applied = 0;
    loop {
        let event = match run.action() {
            ContractAction::Measure => ContractEvent::Measured(ContractObs {
                gaps: step(&mut script),
                build_errors: step(&mut builds),
            }),
            ContractAction::Plan { gap: _ } => ContractEvent::Planned(Some(ContractChange {
                files: vec!["iface_impl.cpp".to_string()],
                payload: "fill".to_string(),
            })),
            ContractAction::Apply { payload, back_up } => {
                assert_eq!(payload, "fill");
                let originals =
                    back_up.into_iter().map(|f| (f, file.clone().map(String::into_bytes))).collect();
                *file = Some("/* filled */\n".to_string());
                applied += 1;
                ContractEvent::Applied { originals, outcome: Ok(()) }
            }
            ContractAction::Restore { files } => {
                for (_, original) in files {
                    *file = original.map(|b| String::from_utf8(b).unwrap());
                }
                ContractEvent::Restored
            }
            ContractAction::Finish => return (run.report, applied),
        };
        run = run.advance(event);
    }
}

#[test]
fn closes_a_gap_and_keeps_it() {
    let mut file = Some("// original\n".to_string());
    let (report, _) = run_contract(
        vec![gaps(vec![gap("rpi5", "camera", 2, 1)]), gaps(vec![])],
        vec![errs(&[]), errs(&[])],
        &mut file,
    );
    assert!(report.success, "{report:?}");
    assert_eq!(report.gaps_closed, vec!["rpi5/camera"]);
    assert!(report.gaps_reverted.is_empty());
    assert_eq!((report.drift_before, report.drift_after), (3, 0));
    assert_eq!(report.rounds, 1);
    assert_eq!(file.as_deref(), Some("/* filled */\n"));
}

#[test]
fn rolls_back_a_change_that_does_not_close_the_gap() {
    let mut file = Some("// original\n".to_string());
    let unchanged = gaps(vec![gap("rpi5", "camera", 2, 0)]);
    let (report, _) =
        run_contract(vec![unchanged.clone(), unchanged], vec![errs(&[]), errs(&[])], &mut file);
    assert!(!report.success);
    assert_eq!(report.gaps_reverted, vec!["rpi5/camera"]);
    assert!(report.gaps_closed.is_empty());
    assert_eq!(file.as_deref(), Some("// original\n"));
}

#[test]
fn modify_contract_rolls_back_a_change_that_breaks_the_build() {
    let mut file = Some("// original\n".to_string());
    let (report, _) = run_contract(
        vec![gaps(vec![gap("rpi5", "camera", 1, 0)]), gaps(vec![])],
        vec![errs(&[]), errs(&[("camera_impl.cpp", 2)])],
        &mut file,
    );
    assert!(!report.success, "{report:?}");
    assert_eq!(report.gaps_reverted, vec!["rpi5/camera"]);
    assert_eq!(report.build_errors_after, 2);
    assert_eq!(file.as_deref(), Some("// original\n"));
}

#[test]
fn removes_a_file_the_fill_created() {
    let mut file = None;
    let unchanged = gaps(vec![gap("rpi5", "camera", 1, 0)]);
    let (report, applied) =
        run_contract(vec![unchanged.clone(), unchanged], vec![errs(&[]), errs(&[])], &mut file);
    assert_eq!(report.gaps_reverted, vec!["rpi5/camera"]);
    assert_eq!(applied, 1);
    assert!(file.is_none());
}

#[test]
fn rolls_back_a_round_that_grows_the_drift() {
    let mut file = Some("// original\n".to_string());
    let (report, _) = run_contract(
        vec![
            gaps(vec![gap("rpi5", "camera", 1, 0)]),
            gaps(vec![gap("rpi5", "camera", 0, 0), gap("rpi5", "audio", 2, 0)]),
        ],
        vec![errs(&[]), errs(&[])],
        &mut file,
    );
    assert!(!report.success, "{report:?}");
    assert!(report.gaps_reverted.contains(&"rpi5/camera".to_string()), "{report:?}");
    assert!(report.gaps_closed.is_empty());
    assert_eq!((report.drift_before, report.drift_after), (1, 2));
    assert_eq!(file.as_deref(), Some("// original\n"));
}

#[test]
fn does_nothing_when_there_is_no_drift() {
    let mut file = Some("// original\n".to_string());
    let (report, applied) = run_contract(vec![gaps(vec![])], vec![errs(&[])], &mut file);
    assert!(report.success, "{report:?}");
    assert_eq!(report.rounds, 0);
    assert_eq!(report.gaps_skipped.len(), 0);
    assert_eq!(applied, 0);
    assert_eq!(report.summary().contains("drift 0 → 0"), true, "{report:?}");
}

#[test]
fn measures_and_fills_a_real_hal_project() {
    let header = "#pragma once\n\nclass CameraHal {\npublic:\n    virtual ~CameraHal() = default;\n    virtual void start() = 0;\n    virtual int frame_count() const = 0;\n};\n";
    let mut root = tree(&[("hal/api/camera.hpp", header)]);
    put_dir(&mut root, "hal/implementations/rpi5");

    let before = hal_gaps(&root, "rpi5");
    let gap = before.open.iter().find(|g| g.interface == "camera").unwrap();
    assert!(gap.missing.len() >= 2, "{gap:?}");
    assert!(!gap.stub);
    let drift_before = before.size();

    let classes = parse_hal_contract_summary(&summarize_hal_header(header).unwrap());
    let stub = generate_hal_placeholder_source("camera", &classes[0].0, &classes[0].1, "rpi5");
    put(&mut root, "hal/implementations/rpi5/camera_stub.cpp", &stub);

    let after = hal_gaps(&root, "rpi5");
    let gap = after.open.iter().find(|g| g.interface == "camera").unwrap();
    assert!(gap.stub, "{gap:?}");
    assert!(!gap.missing.is_empty(), "{gap:?}");
    assert_eq!(after.size(), drift_before);
    let written = root.read("hal/implementations/rpi5/camera_stub.cpp").unwrap();
    assert!(written.contains(SPIRE_HAL_STUB_SENTINEL));
}

#[test]
fn a_gap_is_named_measured_and_targeted() {
    let g = gap("rpi5", "camera", 1, 2);
    assert_eq!(g.id(), "rpi5/camera");
    assert_eq!(g.size(), 3);
    let all = gaps(vec![gap("rpi5", "audio", 0, 0), g]);
    assert_eq!(all.size(), 3);
    assert_eq!(all.find("rpi5/camera"), Some(1));
    let targets = contract_targets(&all);
    assert_eq!(targets.len(), 1);
    assert_eq!(targets[0].id, "rpi5/camera");
    assert_eq!(targets[0].path, "hal/api/camera.hpp");
    assert_eq!(targets[0].context, vec!["missing: m0", "drifted: d0", "drifted: d1"]);
}

#[test]
fn a_round_keeps_the_gap_that_shrank_and_goes_on() {
    let mut file = Some("// original\n".to_string());
    let (report, applied) = run_contract(
        vec![
            gaps(vec![gap("rpi5", "camera", 2, 0), gap("rpi5", "audio", 1, 0)]),
            gaps(vec![gap("rpi5", "camera", 1, 0), gap("rpi5", "audio", 1, 0)]),
            gaps(vec![gap("rpi5", "camera", 1, 0), gap("rpi5", "audio", 1, 0)]),
            gaps(vec![]),
        ],
        vec![errs(&[])],
        &mut file,
    );
    assert_eq!(report.gaps_closed, vec!["rpi5/camera", "rpi5/audio"]);
    assert_eq!(report.gaps_reverted, vec!["rpi5/audio"]);
    assert_eq!(report.rounds, 2);
    assert_eq!(applied, 4);
    assert!(report.success, "{report:?}");
}

#[test]
fn a_gap_that_only_shrank_is_not_closed() {
    let mut run = ContractRun::new(1);
    let before = ContractObs { gaps: gaps(vec![gap("rpi5", "camera", 3, 0)]), build_errors: errs(&[]) };
    let after = ContractObs { gaps: gaps(vec![gap("rpi5", "camera", 1, 0)]), build_errors: errs(&[]) };
    run = run.advance(ContractEvent::Measured(before));
    run = run.advance(ContractEvent::Planned(Some(ContractChange { files: vec![], payload: "p".to_string() })));
    run = run.advance(ContractEvent::Applied { originals: vec![], outcome: Ok(()) });
    run = run.advance(ContractEvent::Measured(after));
    assert_eq!(run.action(), ContractAction::Finish);
    assert!(run.report.gaps_closed.is_empty());
    assert!(run.report.gaps_reverted.is_empty());
    assert_eq!(run.report.gaps_remaining, vec!["rpi5/camera"]);
}

#[test]
fn what_is_put_back_is_what_was_there_byte_for_byte() {
    let mut run = ContractRun::new(1);
    let obs = |n: usize| ContractObs { gaps: gaps(vec![gap("rpi5", "camera", n, 0)]), build_errors: errs(&[]) };
    let change = ContractChange { files: vec!["a.bin".to_string(), "new.cpp".to_string()], payload: "p".to_string() };
    run = run.advance(ContractEvent::Measured(obs(1)));
    run = run.advance(ContractEvent::Planned(Some(change)));
    let originals = vec![("a.bin".to_string(), Some(vec![0xff, 0x00, 0xfe])), ("new.cpp".to_string(), None)];
    run = run.advance(ContractEvent::Applied { originals: originals.clone(), outcome: Ok(()) });
    run = run.advance(ContractEvent::Measured(obs(2)));
    assert_eq!(run.action(), ContractAction::Restore { files: originals });
    run = run.advance(ContractEvent::Restored);
    assert_eq!(run.report.gaps_reverted, vec!["rpi5/camera"]);
    run = run.advance(ContractEvent::Restored);
    assert_eq!(run.report.gaps_reverted, vec!["rpi5/camera"]);
}

#[test]
fn a_gap_without_a_proposal_is_skipped() {
    let mut run = ContractRun::new(2);
    let obs = ContractObs { gaps: gaps(vec![gap("rpi5", "camera", 1, 0), gap("rpi5", "audio", 0, 0)]), build_errors: errs(&[]) };
    run = run.advance(ContractEvent::Measured(obs));
    assert!(matches!(run.action(), ContractAction::Plan { .. }));
    run = run.advance(ContractEvent::Planned(None));
    assert_eq!(run.action(), ContractAction::Finish);
    assert_eq!(run.report.gaps_skipped, vec!["rpi5/camera"]);
    assert_eq!(run.report.gaps_remaining, vec!["rpi5/camera"]);
    assert!(!run.report.success);
    assert_eq!(
        run.report.summary(),
        "skipped (nothing proposed):\n  rpi5/camera\nstill outstanding:\n  rpi5/camera\nverify: drift 1 → 1, build 0 → 0 error(s)\n"
    );
}
