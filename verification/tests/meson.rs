//! The analysis of Meson projects, and the projects that are laid out for them.

use spire_build::meson::{find_target, find_word, outer_build_files, take_statement};
use spire_build::meson_module::MesonBuildModule;
use spire_build::project::{Entry, ProjectTree};
use spire_build::types::{BuildMetadata, DomainEditability, ProjectStructure, SourceRole};

/// A project with these files, and the directories that lead to them.
fn tree(files: &[(&str, &str)]) -> ProjectTree {
    let mut t = ProjectTree { root: "/p".to_string(), entries: Vec::new() };
    for (path, content) in files {
        put(&mut t, path, content);
    }
    t
}

/// Adds the directory, and those that lead to it.
fn put_dir(t: &mut ProjectTree, path: &str) {
    let mut dir = String::new();
    for part in path.split('/') {
        if !dir.is_empty() {
            dir.push('/');
        }
        dir.push_str(part);
        if !t.entries.iter().any(|e| e.path == dir) {
            t.entries.push(Entry { path: dir.clone(), is_dir: true, content: None });
        }
    }
}

/// Writes the file, with the directories that lead to it.
fn put(t: &mut ProjectTree, path: &str, content: &str) {
    if let Some(i) = path.rfind('/') {
        put_dir(t, &path[..i]);
    }
    t.entries.retain(|e| e.path != path);
    t.entries.push(Entry {
        path: path.to_string(),
        is_dir: false,
        content: Some(content.to_string()),
    });
}

/// Analyses a project whose top build file could be read.
fn analyze(t: &ProjectTree) -> BuildMetadata {
    let content = t.read("meson.build").ok_or("no such file".to_string());
    MesonBuildModule::new().analyze(t, &content).unwrap()
}

/// Multi-target Meson layout mirroring ai-traps: root project() with
/// subdir('rpi5')/subdir('rock3c'); the executable() targets live in the
/// platform subdir meson.build files.
fn multi_target_project() -> ProjectTree {
    let mut root = tree(&[]);
    put_dir(&mut root, "rpi5");
    put_dir(&mut root, "rock3c");
    put(&mut root, "meson.build", "project('ai-traps', 'cpp')\nsubdir('rpi5')\nsubdir('rock3c')\n");
    put(&mut root, "rpi5/meson.build", "executable('ai-trap-rpi5', 'main.cpp')\n");
    put(&mut root, "rock3c/meson.build", "executable('ai-trap-rock3c', 'main.cpp')\n");
    root
}

#[test]
fn analyze_extracts_targets_from_subdir_meson_builds() {
    let root = multi_target_project();

    let meta = analyze(&root);

    let names: Vec<&str> = meta.targets.iter().map(|t| t.name.as_str()).collect();
    assert!(
        names.contains(&"ai-trap-rpi5"),
        "expected ai-trap-rpi5 target, got: {names:?}"
    );
    assert!(
        names.contains(&"ai-trap-rock3c"),
        "expected ai-trap-rock3c target, got: {names:?}"
    );
}

#[test]
fn analyze_skips_subdirs_without_project() {
    let root = multi_target_project();

    let meta = analyze(&root);

    // Only the root is a project: name must be ai-traps and exactly one
    // build system entry (no phantom subproject for rpi5/rock3c).
    assert_eq!(meta.build_system, "Meson");
    assert_eq!(meta.project_name.as_deref(), Some("ai-traps"));
}

/// Dependencies must be PER-TARGET like source files: rock3c links
/// rknnrt/mpp/rga, rpi5 links libcamera/tflite/edgetpu — never merged.
#[test]
fn analyze_keeps_dependencies_separate_per_platform() {
    let mut root = tree(&[]);
    put_dir(&mut root, "rpi5");
    put_dir(&mut root, "rock3c");
    put(&mut root, "meson.build", "project('ai-traps', 'cpp')\nsubdir('rpi5')\nsubdir('rock3c')\n");

    // rpi5 platform: shared core deps + libcamera/tflite/edgetpu.
    put(&mut root, "rpi5/meson.build", "cpp = meson.get_compiler('cpp')\n\
              nlohmann_json_dep = dependency('nlohmann_json', required: false)\n\
              yaml_cpp_dep      = dependency('yaml-cpp', required: false)\n\
              core_deps = [nlohmann_json_dep, yaml_cpp_dep]\n\
              libcamera_dep = dependency('libcamera', required: true)\n\
              tflite_dep    = cpp.find_library('tensorflow-lite', required: true)\n\
              edgetpu_dep   = cpp.find_library('edgetpu', required: true)\n\
              platform_deps = [libcamera_dep, tflite_dep, edgetpu_dep]\n\
              executable('ai-trap-rpi5', 'main.cpp',\n\
                dependencies: core_deps + platform_deps)\n");

    // rock3c platform: shared core deps + rknnrt/mpp/rga.
    put(&mut root, "rock3c/meson.build", "cpp = meson.get_compiler('cpp')\n\
              nlohmann_json_dep = dependency('nlohmann_json', required: false)\n\
              yaml_cpp_dep      = dependency('yaml-cpp', required: false)\n\
              core_deps = [nlohmann_json_dep, yaml_cpp_dep]\n\
              rknn_dep  = cpp.find_library('rknnrt', required: true)\n\
              mpp_dep   = cpp.find_library('rockchip_mpp', required: true)\n\
              rga_dep   = cpp.find_library('rga', required: true)\n\
              platform_deps = [rknn_dep, mpp_dep, rga_dep]\n\
              executable('ai-trap-rock3c', 'main.cpp',\n\
                dependencies: core_deps + platform_deps)\n");

    let meta = analyze(&root);

    let rpi5 = meta
        .targets
        .iter()
        .find(|t| t.name == "ai-trap-rpi5")
        .expect("ai-trap-rpi5 target");
    let rpi5_deps: Vec<&str> = rpi5
        .dependencies
        .iter()
        .map(|d| d.name.as_str())
        .collect();
    assert!(
        rpi5_deps.contains(&"libcamera"),
        "rpi5 missing libcamera — got {rpi5_deps:?}"
    );
    assert!(
        rpi5_deps.contains(&"tensorflow-lite"),
        "rpi5 missing tensorflow-lite — got {rpi5_deps:?}"
    );
    assert!(
        !rpi5_deps.contains(&"rknnrt"),
        "rpi5 must NOT contain rock3c-only rknnrt — got {rpi5_deps:?}"
    );

    let rock3c = meta
        .targets
        .iter()
        .find(|t| t.name == "ai-trap-rock3c")
        .expect("ai-trap-rock3c target");
    let rock3c_deps: Vec<&str> = rock3c
        .dependencies
        .iter()
        .map(|d| d.name.as_str())
        .collect();
    assert!(
        rock3c_deps.contains(&"rknnrt"),
        "rock3c missing rknnrt — got {rock3c_deps:?}"
    );
    assert!(
        rock3c_deps.contains(&"rockchip_mpp"),
        "rock3c missing rockchip_mpp — got {rock3c_deps:?}"
    );
    assert!(
        rock3c_deps.contains(&"rga"),
        "rock3c missing rga — got {rock3c_deps:?}"
    );
    assert!(
        !rock3c_deps.contains(&"libcamera"),
        "rock3c must NOT contain rpi5-only libcamera — got {rock3c_deps:?}"
    );
    // Shared core deps still appear on BOTH targets.
    assert!(
        rpi5_deps.contains(&"yaml-cpp") && rock3c_deps.contains(&"yaml-cpp"),
        "shared yaml-cpp must be on both targets — rpi5 {rpi5_deps:?} rock3c {rock3c_deps:?}"
    );
}

/// `find_library('rknnrt', ...)` is a DEPENDENCY lookup — it must never be
/// treated as a `library` build target.
/// rpi5's HAL sources use `rpi5_hal_sources += files(...)` inside an
/// `if platform == 'rpi5'` block — the parser must capture those.
#[test]
fn analyze_captures_conditional_files_append_hal_sources() {
    let mut root = tree(&[]);
    put_dir(&mut root, "rpi5");
    put_dir(&mut root, "toolkit");
    put_dir(&mut root, "rpi5/hal");
    put(&mut root, "meson.build", "project('ai-traps', 'cpp')\nsubdir('toolkit')\nsubdir('rpi5')\n");
    put(&mut root, "toolkit/meson.build", "toolkit_sources = files('src/actors/camera/camera_actor.cpp')\n");
    // Mirrors rpi5/meson.build: HAL files appended inside `if`.
    put(&mut root, "rpi5/meson.build", "platform = get_option('platform')\n\
              rpi5_hal_sources = files()\n\
              if platform == 'rpi5'\n\
                rpi5_hal_sources += files('hal/camera_hal_rpi5.cpp',\n\
                                          'hal/h264_encoder_rpi5.cpp')\n\
              endif\n\
              app_sources = files('main.cpp', 'rpi5_detection_pipeline.cpp')\n\
              executable('ai-trap-rpi5', app_sources + rpi5_hal_sources + toolkit_sources)\n");

    let meta = analyze(&root);
    let rpi5 = meta
        .targets
        .iter()
        .find(|t| t.name == "ai-trap-rpi5")
        .expect("ai-trap-rpi5 target");
    assert!(
        rpi5.source_files.contains(&"hal/camera_hal_rpi5.cpp".to_string()),
        "missing camera_hal_rpi5.cpp — got {:?}",
        rpi5.source_files
    );
    assert!(
        rpi5.source_files.contains(&"hal/h264_encoder_rpi5.cpp".to_string()),
        "missing h264_encoder_rpi5.cpp — got {:?}",
        rpi5.source_files
    );
    assert!(
        rpi5.source_files.contains(&"src/actors/camera/camera_actor.cpp".to_string()),
        "missing shared toolkit source — got {:?}",
        rpi5.source_files
    );
}

/// New HAL container layout: `hal/api/*.hpp` contracts with
/// `hal/implementations/<plat>/*` per-platform implementations. The
/// analyzer discovers the interface set, maps implementations by stem,
/// classifies source units, and reports missing implementations on the
/// platform targets that lack them.
#[test]
fn analyze_discovers_hal_interfaces_in_container_layout() {
    let mut root = tree(&[]);
    put_dir(&mut root, "rpi5");
    put_dir(&mut root, "rock3c");
    put_dir(&mut root, "toolkit");
    put_dir(&mut root, "hal/api");
    put_dir(&mut root, "hal/implementations/rpi5");
    put_dir(&mut root, "hal/implementations/rock3c");
    put(&mut root, "meson.build", "project('ai-traps', 'cpp')\nsubdir('toolkit')\nsubdir('hal')\nsubdir('rpi5')\nsubdir('rock3c')\n");
    // Interface headers (abstract-class contract set).
    put(&mut root, "hal/api/camera_hal.hpp", "class CameraHAL {\npublic:\n    virtual bool start() = 0;\n};\n");
    put(&mut root, "hal/api/h264_encoder.hpp", "class H264Encoder {\npublic:\n    virtual bool encode() = 0;\n};\n");
    // Shared toolkit source.
    put(&mut root, "toolkit/meson.build", "toolkit_sources = files('src/pipeline/base.cpp')\n");
    // hal/meson.build: variables only — per-platform implementation file
    // lists (paths relative to the hal/ dir, i.e. implementations/<plat>/…).
    put(&mut root, "hal/meson.build", "hal_impl_rpi5_sources = files('implementations/rpi5/camera_hal_imx219.cpp')\n\
          hal_impl_rock3c_sources = files('implementations/rock3c/camera_hal_ov5647.cpp',\n\
                                           'implementations/rock3c/h264_encoder_mpp.cpp')\n");
    // rpi5 platform: implements camera_hal only (h264_encoder missing).
    put(&mut root, "hal/implementations/rpi5/camera_hal_imx219.cpp", "");
    put(&mut root, "rpi5/meson.build", "executable('ai-trap-rpi5', 'main.cpp' + hal_impl_rpi5_sources + toolkit_sources)\n");
    // rock3c platform: implements camera_hal + h264_encoder.
    put(&mut root, "hal/implementations/rock3c/camera_hal_ov5647.cpp", "");
    put(&mut root, "hal/implementations/rock3c/h264_encoder_mpp.cpp", "");
    put(&mut root, "rock3c/meson.build", "executable('ai-trap-rock3c', 'main.cpp' + hal_impl_rock3c_sources + toolkit_sources)\n");

    let meta = analyze(&root);

    // HAL interfaces discovered from hal/api.
    let names: Vec<&str> = meta.hal_interfaces.iter().map(|i| i.name.as_str()).collect();
    assert!(names.contains(&"camera_hal"), "interfaces: {names:?}");
    assert!(names.contains(&"h264_encoder"), "interfaces: {names:?}");

    // Implementation mapping by stem.
    let camera = meta.hal_interfaces.iter().find(|i| i.name == "camera_hal").unwrap();
    let h264 = meta.hal_interfaces.iter().find(|i| i.name == "h264_encoder").unwrap();
    assert!(camera.implementations.contains(&"rpi5".to_string()), "camera impls: {:?}", camera.implementations);
    assert!(camera.implementations.contains(&"rock3c".to_string()));
    assert!(h264.implementations.contains(&"rock3c".to_string()));
    assert!(!h264.implementations.contains(&"rpi5".to_string()));

    // Missing implementation diagnostic for rpi5 on h264_encoder.
    let missing: Vec<&str> = meta.issues.iter().filter(|i| i.kind == "missing_implementation").map(|i| i.message.as_str()).collect();
    assert!(
        missing.iter().any(|m| m.contains("h264_encoder") && m.contains("rpi5")),
        "expected rpi5 missing h264_encoder, got: {missing:?}"
    );

    // Source-unit classification: rpi5 target has App + HalImplementation
    // (its hal/ file) + Shared toolkit.
    let rpi5 = meta.targets.iter().find(|t| t.name == "ai-trap-rpi5").unwrap();
    let roles: Vec<&str> = rpi5.source_units.iter().map(|u| match u.role {
        SourceRole::App => "app",
        SourceRole::HalImplementation => "hal_implementation",
        SourceRole::Shared => "shared",
    }).collect();
    assert!(roles.contains(&"app"), "roles: {roles:?}");
    assert!(roles.contains(&"hal_implementation"), "roles: {roles:?}");
    assert!(roles.contains(&"shared"), "roles: {roles:?}");
}

/// Legacy ai-traps layout (toolkit/src/hal/api + <plat>/hal) is recognized
/// too, so nothing breaks before the hal/ container restructure lands.
#[test]
fn analyze_discovers_hal_interfaces_in_legacy_layout() {
    let mut root = tree(&[]);
    put_dir(&mut root, "rpi5");
    put_dir(&mut root, "toolkit/src/hal/api");
    put_dir(&mut root, "rpi5/hal");
    put(&mut root, "meson.build", "project('ai-traps', 'cpp')\nsubdir('toolkit')\nsubdir('rpi5')\n");
    put(&mut root, "toolkit/src/hal/api/camera_hal.hpp", "class CameraHAL {\npublic:\n    virtual bool start() = 0;\n};\n");
    put(&mut root, "rpi5/hal/camera_hal_imx219.cpp", "");
    put(&mut root, "toolkit/meson.build", "toolkit_sources = files('src/pipeline/base.cpp')\n");
    put(&mut root, "rpi5/meson.build", "cam = files('hal/camera_hal_imx219.cpp')\n\
          executable('ai-trap-rpi5', 'main.cpp' + cam + toolkit_sources)\n");

    let meta = analyze(&root);
    assert_eq!(meta.hal_interfaces.len(), 1);
    assert_eq!(meta.hal_interfaces[0].name, "camera_hal");
    assert!(meta.hal_interfaces[0].implementations.contains(&"rpi5".to_string()));
}

/// Plain Meson projects without a hal/ layout produce no HAL interfaces
/// and no spurious diagnostics.
#[test]
fn analyze_no_hal_on_plain_meson_project() {
    let mut root = tree(&[]);
    put(&mut root, "meson.build", "project('plain', 'cpp')\nexecutable('plain', 'main.cpp')\n");
    let meta = analyze(&root);
    assert!(meta.hal_interfaces.is_empty());
    assert!(meta.issues.is_empty());
}

/// The analyzer projects named `domains` for a Hal project: `common`
/// (contract headers + shared toolkit, NO deps), plus one platform domain
/// per target (`rpi5`, `rock3c`) carrying app + HAL impl pieces and
/// platform-scoped deps. Native projects get no domains (their filesystem
/// subproject tree is the correct view).
#[test]
fn analyze_projects_hal_domains() {
    let mut root = tree(&[]);
    put_dir(&mut root, "hal/api");
    put_dir(&mut root, "hal/implementations/rpi5");
    put_dir(&mut root, "hal/implementations/rock3c");
    put_dir(&mut root, "toolkit");
    put_dir(&mut root, "rpi5");
    put_dir(&mut root, "rock3c");
    put(&mut root, "meson.build", "project('ai-traps', 'cpp')\nsubdir('toolkit')\nsubdir('hal')\nsubdir('rpi5')\nsubdir('rock3c')\n");
    put(&mut root, "hal/api/camera_hal.hpp", "class CameraHAL {\npublic:\n    virtual bool start() = 0;\n};\n");
    put(&mut root, "hal/api/h264_encoder.hpp", "class H264Encoder {\npublic:\n    virtual bool encode() = 0;\n};\n");
    put(&mut root, "toolkit/meson.build", "toolkit_sources = files('src/pipeline/base.cpp')\n");
    put(&mut root, "hal/meson.build", "hal_impl_rpi5_sources = files('implementations/rpi5/camera_hal_imx219.cpp')\n\
          hal_impl_rock3c_sources = files('implementations/rock3c/camera_hal_ov5647.cpp',\n\
                                           'implementations/rock3c/h264_encoder_mpp.cpp')\n");
    put(&mut root, "hal/implementations/rpi5/camera_hal_imx219.cpp", "");
    put(&mut root, "hal/implementations/rock3c/camera_hal_ov5647.cpp", "");
    put(&mut root, "hal/implementations/rock3c/h264_encoder_mpp.cpp", "");
    // Per-target deps: rpi5 libcamera, rock3c rknn — plus shared yaml-cpp.
    put(&mut root, "rpi5/meson.build", "yaml_cpp_dep = dependency('yaml-cpp', required: false)\n\
          libcamera_dep = dependency('libcamera', required: true)\n\
          core_deps = [yaml_cpp_dep]\n\
          platform_deps = [libcamera_dep]\n\
          executable('ai-trap-rpi5', 'main.cpp' + hal_impl_rpi5_sources + toolkit_sources,\n\
            dependencies: core_deps + platform_deps)\n");
    put(&mut root, "rock3c/meson.build", "yaml_cpp_dep = dependency('yaml-cpp', required: false)\n\
          rknn_dep = cpp.find_library('rknnrt', required: true)\n\
          core_deps = [yaml_cpp_dep]\n\
          platform_deps = [rknn_dep]\n\
          executable('ai-trap-rock3c', 'main.cpp' + hal_impl_rock3c_sources + toolkit_sources,\n\
            dependencies: core_deps + platform_deps)\n");

    let meta = analyze(&root);
    assert_eq!(meta.structure, ProjectStructure::Hal);
    let ids: Vec<&str> = meta.domains.iter().map(|d| d.id.as_str()).collect();
    assert!(ids.contains(&"common"), "domains: {ids:?}");
    assert!(ids.contains(&"rpi5"), "domains: {ids:?}");
    assert!(ids.contains(&"rock3c"), "domains: {ids:?}");

    let common = meta.domains.iter().find(|d| d.id == "common").unwrap();
    // Contracts are part of the common domain.
    assert!(common.contracts.iter().any(|c| c.contains("camera_hal")), "contracts: {:?}", common.contracts);
    assert!(common.contracts.iter().any(|c| c.contains("h264_encoder")), "contracts: {:?}", common.contracts);
    // Shared toolkit path is in common files.
    assert!(common.files.iter().any(|f| f == "toolkit"), "common files: {:?}", common.files);
    // `common` owns NO dependencies — deps are per-platform only.
    assert!(
        common.dependencies.is_empty(),
        "common must not carry dependencies: {:?}",
        common.dependencies
    );

    let rpi5 = meta.domains.iter().find(|d| d.id == "rpi5").unwrap();
    assert_eq!(rpi5.kind, "platform");
    // Clean DIRECTORY-level slices: rpi5 app dir + rpi5 HAL impl dir.
    assert!(
        rpi5.files.iter().any(|f| f == "rpi5"),
        "rpi5 files must list the app dir: {:?}",
        rpi5.files
    );
    assert!(
        rpi5.files.iter().any(|f| f == "hal/implementations/rpi5"),
        "rpi5 files must list the HAL impl dir: {:?}",
        rpi5.files
    );
    // No shared-toolkit leakage into platform domains.
    assert!(
        !rpi5.files.iter().any(|f| f.contains("toolkit")),
        "rpi5 must not carry toolkit files: {:?}",
        rpi5.files
    );
    let rpi5_dep_names: Vec<&str> = rpi5.dependencies.iter().map(|d| d.name.as_str()).collect();
    assert!(rpi5_dep_names.contains(&"libcamera"), "rpi5 deps: {rpi5_dep_names:?}");
    assert!(!rpi5_dep_names.contains(&"rknnrt"), "rpi5 must not carry rock3c deps: {rpi5_dep_names:?}");

    let rock3c = meta.domains.iter().find(|d| d.id == "rock3c").unwrap();
    assert!(
        rock3c.files.iter().any(|f| f == "rock3c"),
        "rock3c files must list the app dir: {:?}",
        rock3c.files
    );
    assert!(
        rock3c.files.iter().any(|f| f == "hal/implementations/rock3c"),
        "rock3c files must list the HAL impl dir: {:?}",
        rock3c.files
    );
    assert!(
        !rock3c.files.iter().any(|f| f.contains("toolkit")),
        "rock3c must not carry toolkit files: {:?}",
        rock3c.files
    );
    let rock3c_dep_names: Vec<&str> = rock3c.dependencies.iter().map(|d| d.name.as_str()).collect();
    assert!(rock3c_dep_names.contains(&"rknnrt"), "rock3c deps: {rock3c_dep_names:?}");
    assert!(!rock3c_dep_names.contains(&"libcamera"), "rock3c must not carry rpi5 deps: {rock3c_dep_names:?}");
    // `common` is shared/editable (not read-only).
    assert_eq!(
        common.editability,
        DomainEditability::Shared,
        "common must be shared/editable"
    );
}

/// Regression: a platform-local `app_sources = files('main.cpp', ...)`
/// variable must NOT be re-classified as "shared" just because it's
/// referenced with `+` in the executable block and assigned `files(...)`.
/// Before the fix, `app_sources` leaked into `shared_files`, which
/// emptied the target's App source unit — dropping the `<plat>/` directory
/// from the platform domain's file list so the UI showed only the HAL
/// implementations (never `main.cpp` / platform pipeline files).
#[test]
fn analyze_platform_app_sources_stay_app_not_shared() {
    let mut root = tree(&[]);
    put_dir(&mut root, "hal/api");
    put_dir(&mut root, "hal/implementations/rpi5");
    put_dir(&mut root, "toolkit");
    put_dir(&mut root, "rpi5");
    put(&mut root, "meson.build", "project('ai-traps', 'cpp')\nsubdir('toolkit')\nsubdir('hal')\nsubdir('rpi5')\n");
    put(&mut root, "hal/api/camera_hal.hpp", "class CameraHAL {\npublic:\n    virtual bool start() = 0;\n};\n");
    put(&mut root, "hal/implementations/rpi5/camera_hal_imx219.cpp", "");
    put(&mut root, "toolkit/meson.build", "toolkit_sources = files('src/pipeline/base.cpp')\n");
    put(&mut root, "hal/meson.build", "hal_impl_rpi5_sources = files('implementations/rpi5/camera_hal_imx219.cpp')\n");
    // Real ai-traps shape: `app_sources` is platform-local (assigned in
    // THIS section), `rpi5_hal_sources` aliases the hal/ container var,
    // and the executable() mixes all three with `+`.
    put(&mut root, "rpi5/meson.build", "app_sources = files('main.cpp', 'rpi5_detection_pipeline.cpp')\n\
          rpi5_hal_sources = hal_impl_rpi5_sources\n\
          executable('ai-trap-rpi5', app_sources + rpi5_hal_sources + toolkit_sources)\n");
    put(&mut root, "rpi5/main.cpp", "int main(){}\n");
    put(&mut root, "rpi5/rpi5_detection_pipeline.cpp", "// pipeline\n");

    let meta = analyze(&root);

    // The ai-trap-rpi5 target carries its App sources…
    let rpi5 = meta.targets.iter().find(|t| t.name == "ai-trap-rpi5").unwrap();
    assert!(
        rpi5.source_files.contains(&"main.cpp".to_string()),
        "target source_files missing main.cpp: {:?}",
        rpi5.source_files
    );
    assert!(
        rpi5.source_files.contains(&"rpi5_detection_pipeline.cpp".to_string()),
        "target source_files missing rpi5_detection_pipeline.cpp: {:?}",
        rpi5.source_files
    );
    // …and gets an App source unit (not Shared).
    let app_unit = rpi5.source_units.iter().any(|u| {
        u.role == SourceRole::App
    });
    assert!(
        app_unit,
        "platform target must have an App source unit: {:?}",
        rpi5.source_units
    );
    let shared_unit = rpi5.source_units.iter().any(|u| {
        u.role == SourceRole::Shared
    });
    assert!(
        shared_unit,
        "platform target must still have a Shared toolkit unit: {:?}",
        rpi5.source_units
    );

    // The platform domain lists the app dir + the HAL impl dir — the UI
    // then shows main.cpp / rpi5_detection_pipeline.cpp in Sources.
    let domain = meta.domains.iter().find(|d| d.id == "rpi5").unwrap();
    assert!(
        domain.files.iter().any(|f| f == "rpi5"),
        "rpi5 domain must list the app dir: {:?}",
        domain.files
    );
    assert!(
        domain.files.iter().any(|f| f == "hal/implementations/rpi5"),
        "rpi5 domain must list the HAL impl dir: {:?}",
        domain.files
    );
    assert!(
        !domain.files.iter().any(|f| f.contains("toolkit")),
        "rpi5 domain must not carry toolkit files: {:?}",
        domain.files
    );
}

/// The analyzer classifies the project's structural shape so the UI can
/// pick the right tree presentation:
/// - plain single-host Meson project → Native
/// - multi-platform Meson WITHOUT HAL contracts → SingleSource
/// - ai-traps (multi-platform + hal/api contracts) → Hal
#[test]
fn analyze_classifies_structure_native_single_and_hal() {
    // ── Native: one host project, no platform option ────────────────
    let mut root = tree(&[]);
    put(&mut root, "meson.build", "project('plain', 'cpp')\nexecutable('plain', 'main.cpp')\n");
    let meta = analyze(&root);
    assert_eq!(
        meta.structure,
        ProjectStructure::Native,
        "plain meson must be Native"
    );

    // ── SingleSource: multi-platform meson_options, no HAL contracts ──
    let mut root = tree(&[]);
    put_dir(&mut root, "rpi5");
    put_dir(&mut root, "rock3c");
    put(&mut root, "meson.build", "project('single', 'cpp')\nsubdir('rpi5')\nsubdir('rock3c')\n");
    put(&mut root, "meson_options.txt", "option('platform', type: 'string', value: 'host',\n       description: 'Valid values: host, rpi5, rock3c')\n");
    put(&mut root, "rpi5/meson.build", "executable('single-rpi5', 'main.cpp')\n");
    put(&mut root, "rock3c/meson.build", "executable('single-rock3c', 'main.cpp')\n");
    let meta = analyze(&root);
    assert_eq!(
        meta.structure,
        ProjectStructure::SingleSource,
        "multi-platform no-HAL meson must be SingleSource"
    );

    // ── Hal: ai-traps container layout (hal/api contracts + platform impls)
    let mut root = tree(&[]);
    put_dir(&mut root, "hal/api");
    put_dir(&mut root, "hal/implementations/rpi5");
    put_dir(&mut root, "rpi5");
    put(&mut root, "meson.build", "project('ai-traps', 'cpp')\nsubdir('hal')\nsubdir('rpi5')\n");
    put(&mut root, "hal/api/camera_hal.hpp", "class CameraHAL {\npublic:\n    virtual bool start() = 0;\n};\n");
    put(&mut root, "hal/implementations/rpi5/camera_hal_imx219.cpp", "");
    put(&mut root, "hal/meson.build", "hal_impl_rpi5_sources = files('implementations/rpi5/camera_hal_imx219.cpp')\n");
    put(&mut root, "rpi5/meson.build", "executable('ai-trap-rpi5', 'main.cpp' + hal_impl_rpi5_sources)\n");
    let meta = analyze(&root);
    assert_eq!(
        meta.structure,
        ProjectStructure::Hal,
        "hal-layout meson must be Hal"
    );
}

/// Non-contract headers (structs, free functions) in `hal/api` must NOT be
/// reported as HAL interfaces, so `hal_add_target` never generates bogus
/// placeholder implementations for them.
#[test]
fn analyze_excludes_non_contract_headers_from_hal_interfaces() {
    let mut root = tree(&[]);
    put_dir(&mut root, "hal/api");
    put_dir(&mut root, "hal/implementations/rpi5");
    put_dir(&mut root, "rpi5");
    put(&mut root, "meson.build", "project('ai-traps', 'cpp')\nsubdir('hal')\nsubdir('rpi5')\n");
    // A real abstract-class contract.
    put(&mut root, "hal/api/camera_hal.hpp", "class CameraHAL {\npublic:\n    virtual bool start() = 0;\n};\n");
    // Non-contract headers that previously polluted the interface set.
    put(&mut root, "hal/api/frame_buffer.hpp", "struct FrameBuffer { int w = 0; };\n");
    put(&mut root, "hal/api/config_loader.hpp", "// free functions, no pure-virtual\n");
    put(&mut root, "hal/implementations/rpi5/camera_hal_imx219.cpp", "// impl\n");
    put(&mut root, "hal/meson.build", "hal_impl_rpi5_sources = files('implementations/rpi5/camera_hal_imx219.cpp')\n");
    put(&mut root, "rpi5/main.cpp", "int main(){}\n");
    put(&mut root, "rpi5/meson.build", "executable('ai-trap-rpi5', 'main.cpp' + hal_impl_rpi5_sources)\n");

    let meta = analyze(&root);
    let names: Vec<&str> = meta.hal_interfaces.iter().map(|i| i.name.as_str()).collect();
    assert_eq!(names, vec!["camera_hal"], "interfaces: {names:?}");
    assert!(!names.contains(&"frame_buffer"), "frame_buffer is not a contract: {names:?}");
    assert!(!names.contains(&"config_loader"), "config_loader is not a contract: {names:?}");
}

#[test]
fn scaffold_layout_host_returns_legacy_single() {
    let out = MesonBuildModule::new()
        .scaffold_layout(
            "demo",
            "goal",
            &vec!["host".to_string()],
            ProjectStructure::Native,
        )
        .unwrap();
    assert!(out.files.is_empty());
    assert_eq!(out.build_file, "meson.build");
    assert!(out.build_content.contains("project('demo', 'c')"));
    assert!(out.source_file.ends_with("main.c"));
    assert_eq!(out.platform_targets, vec!["host".to_string()]);
}

#[test]
fn scaffold_layout_multi_emits_platform_files() {
    let out = MesonBuildModule::new()
        .scaffold_layout(
            "demo",
            "goal",
            &vec!["rpi5".to_string(), "rock3c".to_string()],
            ProjectStructure::SingleSource,
        )
        .unwrap();
    // Root + meson_options.txt + per-platform meson.build + main.cpp.
    assert!(out.files.iter().any(|f| f.path == "meson.build"));
    assert!(out.files.iter().any(|f| f.path == "meson_options.txt"));
    assert!(out.files.iter().any(|f| f.path == "rpi5/meson.build"));
    assert!(out.files.iter().any(|f| f.path == "rock3c/meson.build"));
    assert!(out.files.iter().any(|f| f.path == "rpi5/main.cpp"));
    assert!(out.files.iter().any(|f| f.path == "rock3c/main.cpp"));
    assert_eq!(out.platform_targets, vec!["rpi5".to_string(), "rock3c".to_string()]);
    // meson_options declares both platforms.
    let opts = out.files.iter().find(|f| f.path == "meson_options.txt").unwrap();
    assert!(opts.content.contains("rpi5"));
    assert!(opts.content.contains("rock3c"));
    // Root declares subdir('rpi5') + subdir('rock3c').
    let root = out.files.iter().find(|f| f.path == "meson.build").unwrap();
    assert!(root.content.contains("subdir('rpi5')"));
    assert!(root.content.contains("subdir('rock3c')"));
}

#[test]
fn scaffolding_multi_platform_roundtrips_through_analyze() {
    // Write the scaffolded files to a temp dir, then verify the existing
    // analyzer sees both per-platform targets (the scaffold round-trips
    // through the build system's own parser/builder).
    let mut root = tree(&[]);
    let out = MesonBuildModule::new()
        .scaffold_layout(
            "demo",
            "goal",
            &vec!["rpi5".to_string(), "rock3c".to_string()],
            ProjectStructure::SingleSource,
        )
        .unwrap();
    for f in out.files {
        put(&mut root, &f.path, &f.content);
    }
    let meta = analyze(&root);
    let names: Vec<String> = meta.targets.iter().map(|t| t.name.clone()).collect();
    assert!(names.contains(&"demo-rpi5".to_string()), "targets: {names:?}");
    assert!(names.contains(&"demo-rock3c".to_string()), "targets: {names:?}");
    assert_eq!(meta.platform_targets, vec!["rpi5".to_string(), "rock3c".to_string()]);
}

#[test]
fn analyze_does_not_treat_find_library_as_target() {
    let mut root = tree(&[]);
    put_dir(&mut root, "rpi5");
    put(&mut root, "meson.build", "project('ai-traps', 'cpp')\nsubdir('rpi5')\n");
    // Exactly the ai-traps shape: executable + find_library dependency calls.
    put(&mut root, "rpi5/meson.build", "cpp = meson.get_compiler('cpp')\n\
              executable('ai-trap-rpi5', 'main.cpp')\n\
              dependency('yaml-cpp', required: false)\n\
              cpp.find_library('rknnrt', dirs: ['/opt/sysroot/lib'], required: true)\n\
              cpp.find_library('rockchip_mpp', dirs: ['/opt/sysroot/lib'], required: true)\n");

    let meta = analyze(&root);

    let target_names: Vec<&str> = meta.targets.iter().map(|t| t.name.as_str()).collect();
    assert_eq!(
        target_names,
        vec!["ai-trap-rpi5"],
        "find_library deps must not appear as build targets, got: {target_names:?}"
    );

    // …but the deps ARE still extracted as dependencies.
    let dep_names: Vec<&str> = meta.dependencies.iter().map(|d| d.name.as_str()).collect();
    assert!(dep_names.contains(&"rknnrt"), "deps: {dep_names:?}");
    assert!(dep_names.contains(&"rockchip_mpp"), "deps: {dep_names:?}");
    assert!(dep_names.contains(&"yaml-cpp"), "deps: {dep_names:?}");
}

#[test]
fn given_matches_become_lists_and_targets() {
    let chars: Vec<char> = "deps += [ threads, zlib ]".chars().collect();
    let known = vec![("threads".to_string(), "threads".to_string()), ("zlib".to_string(), "zlib".to_string())];
    let groups = vec![Some((0, 25)), None, Some((0, 4)), Some((5, 7)), Some((9, 24)), None];
    assert_eq!(find_word(&chars, &groups, 4).as_deref(), Some("threads, zlib"));
    assert_eq!(find_word(&chars, &groups, 1), None);
    let mut lists = vec![("deps".to_string(), vec!["m".to_string()])];
    take_statement(&known, &mut lists, &chars, &groups);
    assert_eq!(
        lists,
        vec![("deps".to_string(), vec!["m".to_string(), "threads".to_string(), "zlib".to_string()])]
    );
    let text = "\nexecutable('demo', 'main.cpp')\n";
    let chars: Vec<char> = text.chars().collect();
    let parts = vec![("rpi5".to_string(), 0, text.len())];
    let m = vec![Some((1, 18)), Some((13, 17))];
    let target = find_target(text, &chars, &parts, "executable", "demo", &m);
    assert_eq!((target.name.as_str(), target.kind.as_slice()), ("demo", &["executable".to_string()][..]));
    assert_eq!(target.platform, "rpi5");
    assert_eq!(target.source_files, vec!["main.cpp".to_string()]);
}

#[test]
fn a_subdirectory_may_lead_out_of_the_project() {
    let top = "project('demo', 'cpp')\nsubdir('rpi5/../../shared')\n# subdir('/q')\nsubdir('/p/../common')\nsubdir('rpi5')\n";
    assert_eq!(
        outer_build_files("/p", top),
        vec!["../shared/meson.build".to_string(), "../common/meson.build".to_string()]
    );
    let mut root = tree(&[("meson.build", top)]);
    root.entries.push(Entry {
        path: "../shared/meson.build".to_string(),
        is_dir: false,
        content: Some("executable('tool', 'tool.cpp')\n".to_string()),
    });
    let meta = analyze(&root);
    let names: Vec<&str> = meta.targets.iter().map(|t| t.name.as_str()).collect();
    assert_eq!(names, vec!["tool"]);
}
