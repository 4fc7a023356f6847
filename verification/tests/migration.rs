//! The layout of a hardware abstraction layer, and the way to the canonical one.

use spire_build::migration::{
    advance_move, decide_edit, detect_hal_layout, hal_sanity_check, has_legacy_platform_impls, list_legacy_dirs,
    migrate_hal_plan, record_edit, record_removed, record_write, HalLayout, HalMigrationPlan, MigrationResult,
    MoveStep,
};
use spire_build::project::{Entry, ProjectTree};

/// A project with these files, and the directories that lead to them.
fn tree(files: &[(&str, &str)]) -> ProjectTree {
    let mut t = ProjectTree { root: "/p".to_string(), entries: Vec::new() };
    for (path, content) in files {
        put(&mut t, path, content);
    }
    t
}

/// Adds the directory, and those that lead to it.
fn put_dir(t: &mut ProjectTree, path: &str) {
    let mut dir = String::new();
    for part in path.split('/') {
        if !dir.is_empty() {
            dir.push('/');
        }
        dir.push_str(part);
        if !t.entries.iter().any(|e| e.path == dir) {
            t.entries.push(Entry { path: dir.clone(), is_dir: true, content: None });
        }
    }
}

/// Writes the file, with the directories that lead to it.
fn put(t: &mut ProjectTree, path: &str, content: &str) {
    if let Some(i) = path.rfind('/') {
        put_dir(t, &path[..i]);
    }
    t.entries.retain(|e| e.path != path);
    t.entries.push(Entry {
        path: path.to_string(),
        is_dir: false,
        content: Some(content.to_string()),
    });
}

/// Carries a plan out on a project that is held in memory.
fn apply(t: &mut ProjectTree, plan: &HalMigrationPlan) -> MigrationResult {
    let mut result = MigrationResult::default();
    let root = t.root.clone();
    for m in &plan.moves {
        let mut step = MoveStep::CheckSource;
        while step != MoveStep::Done {
            let failure = match step {
                MoveStep::CheckSource if !t.has_path(&m.from) => Some(String::new()),
                MoveStep::CheckTarget if t.has_path(&m.to) => Some(String::new()),
                MoveStep::Rename => {
                    let content = t.read(&m.from).unwrap();
                    t.entries.retain(|e| e.path != m.from);
                    put(t, &m.to, &content);
                    None
                }
                _ => None,
            };
            step = advance_move(&mut result, &root, m, step, &failure);
        }
    }
    for w in &plan.write_files {
        put(t, &w.path, &w.content);
        record_write(&mut result, w, &None);
    }
    for dir in list_legacy_dirs(t) {
        if t.is_dir(&dir) && t.list(&dir).is_empty() {
            t.entries.retain(|e| e.path != dir);
            record_removed(&mut result, &dir);
        }
    }
    for edit in &plan.build_file_edits {
        let current = t.read(&edit.file).ok_or("no such file".to_string());
        if decide_edit(&mut result, edit, &current) {
            put(t, &edit.file, &edit.after);
            record_edit(&mut result, edit, &None);
        }
    }
    result
}

const CONTRACT_HPP: &str = "class CameraHAL {\npublic:\n    virtual bool start() = 0;\n};\n";

/// Build a canonical fixture: hal/api/camera_hal.hpp + implementations.
fn canonical_fixture(root: &mut ProjectTree) {
    put(root, "meson.build", "project('demo', 'cpp')\nsubdir('hal')\n");
    put(root, "hal/api/camera_hal.hpp", CONTRACT_HPP);
    put(root, "hal/implementations/rpi5/camera_hal_imx219.cpp", "// impl\n");
    put(root, "hal/meson.build", "hal_impl_rpi5_sources = files('implementations/rpi5/camera_hal_imx219.cpp')\n");
}
/// Build a legacy fixture: toolkit/src/hal/api/*.hpp + <plat>/hal/*.
fn legacy_fixture(root: &mut ProjectTree) {
    put(root, "meson.build", "project('demo', 'cpp')\nsubdir('toolkit')\nsubdir('rpi5')\n");
    put(root, "toolkit/src/hal/api/camera_hal.hpp", CONTRACT_HPP);
    put(root, "toolkit/meson.build", "toolkit_sources = files('src/a.cpp')\n");
    put(root, "rpi5/meson.build", "rpi5_hal_sources = files('hal/camera_hal_imx219.cpp')\nexecutable('demo-rpi5', 'main.cpp' + rpi5_hal_sources)\n");
    put(root, "rpi5/hal/camera_hal_imx219.cpp", "// impl\n");
}

/// Build a half-migrated fixture mirroring ai-traps before cleanup:
/// canonical hal/ container present, but stale legacy markers remain —
/// an orphaned config_loader.cpp in toolkit/src/hal/api/ and a stale
/// rpi5/meson.build still declaring rpi5_hal_sources = files('hal/...').
fn stale_wiring_fixture(root: &mut ProjectTree) {
    put(root, "meson.build", "project('demo', 'cpp')\nsubdir('hal')\nsubdir('toolkit')\nsubdir('rpi5')\n");
    put(root, "hal/api/camera_hal.hpp", CONTRACT_HPP);
    put(root, "hal/meson.build", "hal_impl_rpi5_sources = files('implementations/rpi5/camera_hal_imx219.cpp')\n");
    put(root, "hal/implementations/rpi5/camera_hal_imx219.cpp", "// impl\n");
    put(root, "toolkit/src/hal/api/config_loader.cpp", "// orphan impl\n");
    put(root, "toolkit/meson.build", "toolkit_sources = files('src/a.cpp')\n");
    put(root, "rpi5/meson.build", "rpi5_hal_sources = files('hal/camera_hal_imx219.cpp')\nexecutable('demo-rpi5', 'main.cpp' + rpi5_hal_sources)\n");
    put(root, "rpi5/main.cpp", "int main(){}\n");
}

#[test]
fn detects_canonical() {
    let mut dir = tree(&[]);
    canonical_fixture(&mut dir);
    assert_eq!(detect_hal_layout(&dir), HalLayout::Canonical);
}

#[test]
fn detects_legacy() {
    let mut dir = tree(&[]);
    legacy_fixture(&mut dir);
    assert_eq!(detect_hal_layout(&dir), HalLayout::Legacy);
}

#[test]
fn detects_none_on_plain_project() {
    let mut dir = tree(&[]);
    put(&mut dir, "meson.build", "project('x', 'c')\n");
    assert_eq!(detect_hal_layout(&dir), HalLayout::Absent);
}

#[test]
fn plan_for_canonical_is_noop() {
    let mut dir = tree(&[]);
    canonical_fixture(&mut dir);
    let plan = migrate_hal_plan(&dir, true).unwrap();
    assert_eq!(plan.layout, HalLayout::Canonical);
    assert!(!plan.can_apply);
    assert!(plan.moves.is_empty());
}

#[test]
fn plan_for_legacy_moves_contracts_and_impls() {
    let mut dir = tree(&[]);
    legacy_fixture(&mut dir);
    let plan = migrate_hal_plan(&dir, true).unwrap();
    assert_eq!(plan.layout, HalLayout::Legacy);
    assert!(plan.can_apply);

    let moves: Vec<&str> = plan.moves.iter().map(|m| m.from.as_str()).collect();
    assert!(
        moves.contains(&"toolkit/src/hal/api/camera_hal.hpp"),
        "contract move missing: {moves:?}"
    );
    assert!(
        moves.contains(&"rpi5/hal/camera_hal_imx219.cpp"),
        "impl move missing: {moves:?}"
    );
    assert!(
        plan.moves.iter().any(|m| m.to == "hal/api/camera_hal.hpp"),
        "contract dest wrong: {:?}",
        plan.moves
    );
    assert!(
        plan.moves
            .iter()
            .any(|m| m.to == "hal/implementations/rpi5/camera_hal_imx219.cpp"),
        "impl dest wrong: {:?}",
        plan.moves
    );

    // hal/meson.build includes the wiring.
    let meson = &plan.write_files[0];
    assert_eq!(meson.path, "hal/meson.build");
    assert!(
        meson.content.contains("hal_impl_rpi5_sources = files('implementations/rpi5/camera_hal_imx219.cpp')"),
        "meson content: {}",
        meson.content
    );

    // Top-level meson.build gets subdir('hal').
    assert!(!plan.build_file_edits.is_empty());
    assert!(
        plan.build_file_edits[0].after.contains("subdir('hal')"),
        "edit: {:?}",
        plan.build_file_edits[0]
    );
}

#[test]
fn apply_migrates_legacy_project() {
    let mut dir = tree(&[]);
    legacy_fixture(&mut dir);
    let plan = migrate_hal_plan(&dir, true).unwrap();
    assert!(plan.can_apply);

    let result = apply(&mut dir, &plan);
    assert!(result.errors.is_empty(), "errors: {:?}", result.errors);
    // Files moved.
    assert!(!dir.has_path("toolkit/src/hal/api/camera_hal.hpp"));
    assert!(dir.has_path("hal/api/camera_hal.hpp"));
    assert!(!dir.has_path("rpi5/hal/camera_hal_imx219.cpp"));
    assert!(dir.has_path("hal/implementations/rpi5/camera_hal_imx219.cpp"));
    // hal/meson.build written.
    assert!(dir.has_path("hal/meson.build"));
    // Top-level meson.build rewritten.
    let top = dir.read("meson.build").unwrap();
    assert!(top.contains("subdir('hal')"), "top: {top}");
    // Cleanup: legacy dirs removed.
    assert!(!dir.has_path("rpi5/hal"), "rpi5/hal left behind");
    assert!(!dir.has_path("toolkit/src/hal/api"), "legacy api left behind");
    assert!(result.cleanup.iter().any(|c| c.contains("rpi5/hal") || c.contains("hal/api")), "cleanup: {:?}", result.cleanup);
}

#[test]
fn sanity_ok_for_healthy_canonical() {
    let mut dir = tree(&[]);
    canonical_fixture(&mut dir);
    let report = hal_sanity_check(&dir);
    assert_eq!(report.status, "ok", "issues: {:?}", report.issues);
    assert!(report.interfaces.contains(&"camera_hal".to_string()), "interfaces: {:?}", report.interfaces);
}

#[test]
fn sanity_flags_missing_contract() {
    let mut dir = tree(&[]);
    put(&mut dir, "meson.build", "project('d', 'cpp')\nsubdir('hal')\n");
    put(&mut dir, "hal/implementations/rpi5/camera_hal_imx219.cpp", "// i\n");
    put(&mut dir, "hal/meson.build", "hal_impl_rpi5_sources = files('implementations/rpi5/camera_hal_imx219.cpp')\n");
    let report = hal_sanity_check(&dir);
    assert_eq!(report.status, "issues");
    assert!(report.issues.iter().any(|i| i.title.contains("No HAL contracts")));
}

#[test]
fn sanity_flags_missing_impl_for_platform() {
    let mut dir = tree(&[]);
    put(&mut dir, "meson.build", "project('d', 'cpp')\nsubdir('hal')\n");
    put(&mut dir, "hal/api/camera_hal.hpp", CONTRACT_HPP);
    put(&mut dir, "hal/meson.build", "\n");
    // rpi5 dir with sources but no hal/implementations/rpi5.
    put(&mut dir, "rpi5/main.cpp", "int main(){}\n");
    let report = hal_sanity_check(&dir);
    assert!(report.issues.iter().any(|i| i.title.contains("Missing HAL implementation")), "issues: {:?}", report.issues);
}

#[test]
fn sanity_flags_legacy_leftovers() {
    let mut dir = tree(&[]);
    canonical_fixture(&mut dir);
    // Simulate the leave-behind the migration used to create.
    put(&mut dir, "rpi5/hal/stale.cpp", "// stale\n");
    let report = hal_sanity_check(&dir);
    assert_eq!(report.status, "issues");
    assert!(report.issues.iter().any(|i| i.title.contains("Mixed HAL layout") || i.title.contains("legacy")), "issues: {:?}", report.issues);
}

/// A stale-wiring project (canonical container + orphaned legacy `.cpp` +
/// legacy `<plat>/meson.build` wiring) must be detected `Mixed`, never
/// `Canonical` — previously this exact breakage was invisible.
#[test]
fn detects_mixed_stale_wiring_fixture() {
    let mut dir = tree(&[]);
    stale_wiring_fixture(&mut dir);
    assert_eq!(detect_hal_layout(&dir), HalLayout::Mixed);
}

/// The migration plan for a stale-wiring project must contain a real
/// `rpi5/meson.build` build-file edit switching to `hal_impl_rpi5_sources`,
/// not just a human note.
#[test]
fn plan_for_stale_wiring_rewrites_platform_meson() {
    let mut dir = tree(&[]);
    stale_wiring_fixture(&mut dir);
    let plan = migrate_hal_plan(&dir, true).unwrap();
    assert_eq!(plan.layout, HalLayout::Mixed);

    let rpi5_edit = plan
        .build_file_edits
        .iter()
        .find(|e| e.file == "rpi5/meson.build")
        .expect("rpi5/meson.build must be in the plan edits");
    assert!(
        rpi5_edit.after.contains("hal_impl_rpi5_sources"),
        "rewritten rpi5 meson must reference the centralized var: {}",
        rpi5_edit.after
    );
    assert!(
        !rpi5_edit.after.contains("rpi5_hal_sources = files"),
        "legacy declaration must be removed: {}",
        rpi5_edit.after
    );
}

/// Apply on the stale-wiring fixture removes the orphan legacy `.cpp` and
/// rewrites rpi5/meson.build to the centralized source var.
#[test]
fn apply_cleans_stale_wiring() {
    let mut dir = tree(&[]);
    stale_wiring_fixture(&mut dir);
    let plan = migrate_hal_plan(&dir, true).unwrap();
    let result = apply(&mut dir, &plan);
    assert!(result.errors.is_empty(), "errors: {:?}", result.errors);

    // Orphan legacy impl moved/cleaned (the dir was removed when emptied).
    let rpi5 = dir.read("rpi5/meson.build").unwrap();
    assert!(
        rpi5.contains("hal_impl_rpi5_sources"),
        "rpi5 meson after apply: {rpi5}"
    );
    assert!(!rpi5.contains("rpi5_hal_sources = files"), "rpi5 meson after apply: {rpi5}");

    // After apply + the legacy dir cleanup, re-detect must no longer be Mixed.
    assert_eq!(detect_hal_layout(&dir), HalLayout::Canonical, "project should be canonical after apply");
}

/// `hal_sanity_check` must flag BOTH the orphaned legacy `.cpp` and stale
/// platform wiring so a half-migrated project is never reported healthy.
#[test]
fn sanity_flags_stale_wiring_and_orphan_cpp() {
    let mut dir = tree(&[]);
    stale_wiring_fixture(&mut dir);
    let report = hal_sanity_check(&dir);
    assert_eq!(report.status, "issues");
    assert!(
        report.issues.iter().any(|i| i.title.contains("Implementation file left in legacy contract dir")),
        "issues: {:?}",
        report.issues
    );
    assert!(
        report.issues.iter().any(|i| i.title.contains("Mixed HAL layout")),
        "issues: {:?}",
        report.issues
    );
}

/// Pure-data struct headers (frame_buffer.hpp) in `hal/api` are NOT HAL
/// interfaces AND produce NO sanity warning (they're legitimate shared
/// support headers — this is the case the user reported). Only headers
/// with no class/struct at all (free functions) are flagged misplaced.
#[test]
fn sanity_accepts_data_only_struct_headers_without_warning() {
    let mut dir = tree(&[]);
    put(&mut dir, "meson.build", "project('d', 'cpp')\nsubdir('hal')\n");
    put(&mut dir, "hal/api/camera_hal.hpp", CONTRACT_HPP);
    put(&mut dir, "hal/api/frame_buffer.hpp", "struct FrameBuffer { int w = 0; };\n");
    put(&mut dir, "hal/implementations/rpi5/camera_hal_imx219.cpp", "// impl\n");
    put(&mut dir, "hal/meson.build", "hal_impl_rpi5_sources = files('implementations/rpi5/camera_hal_imx219.cpp')\n");

    let report = hal_sanity_check(&dir);
    assert!(
        report.interfaces.contains(&"camera_hal".to_string()),
        "interfaces: {:?}",
        report.interfaces
    );
    assert!(
        !report.interfaces.contains(&"frame_buffer".to_string()),
        "frame_buffer is not a contract: {:?}",
        report.interfaces
    );
    // DataOnly headers no longer warn — status must be healthy.
    assert_eq!(report.status, "ok", "issues: {:?}", report.issues);
    assert!(
        !report
            .issues
            .iter()
            .any(|i| i.title.contains("Non-contract header in HAL api dir")),
        "issues: {:?}",
        report.issues
    );
}

/// A free-function header (no class/struct) in the contract dir is still
/// flagged as misplaced — it genuinely doesn't belong in hal/api.
#[test]
fn sanity_flags_free_function_header_in_api_dir() {
    let mut dir = tree(&[]);
    put(&mut dir, "meson.build", "project('d', 'cpp')\nsubdir('hal')\n");
    put(&mut dir, "hal/api/camera_hal.hpp", CONTRACT_HPP);
    put(&mut dir, "hal/api/misc_helpers.hpp", "// free functions, no class\nint helper();\n");
    put(&mut dir, "hal/implementations/rpi5/camera_hal_imx219.cpp", "// impl\n");
    put(&mut dir, "hal/meson.build", "hal_impl_rpi5_sources = files('implementations/rpi5/camera_hal_imx219.cpp')\n");

    let report = hal_sanity_check(&dir);
    assert_eq!(report.status, "issues");
    assert!(
        report
            .issues
            .iter()
            .any(|i| i.title.contains("Non-contract header in HAL api dir")),
        "issues: {:?}",
        report.issues
    );
    assert!(
        !report.interfaces.contains(&"misc_helpers".to_string()),
        "interfaces: {:?}",
        report.interfaces
    );
}

#[test]
fn a_root_that_cannot_be_listed_is_an_error() {
    let mut t = tree(&[]);
    assert!(migrate_hal_plan(&t, false).is_ok());
    legacy_fixture(&mut t);
    assert_eq!(migrate_hal_plan(&t, false).unwrap_err(), "Cannot read project root");
    assert!(migrate_hal_plan(&t, true).is_ok());
}

#[test]
fn nothing_is_left_in_the_legacy_places() {
    let mut dir = tree(&[]);
    legacy_fixture(&mut dir);
    put(&mut dir, "toolkit/src/hal/api/audio.cpp", "// sources\n");
    put(&mut dir, "rpi5/hal/notes.txt", "kept\n");
    assert!(has_legacy_platform_impls(&dir));
    let plan = migrate_hal_plan(&dir, true).unwrap();
    assert!(plan.conflicts.is_empty());
    apply(&mut dir, &plan);
    assert!(!has_legacy_platform_impls(&dir));
    assert!(dir.read("toolkit/src/hal/api/audio.cpp").is_none());
    assert_eq!(dir.read("toolkit/src/audio.cpp").unwrap(), "// sources\n");
    assert_eq!(dir.read("rpi5/hal/notes.txt").unwrap(), "kept\n");
    let again = migrate_hal_plan(&dir, true).unwrap();
    assert!(again.moves.is_empty());
}
