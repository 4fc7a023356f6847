//! What holds of two or more calls, on values.

use spire_build::contract::{
    diff_hal_contracts, parse_hal_contract_summary, summarize_classes, summarize_hal_header,
};
use spire_build::coverage::{coverage_from, flatten_hal_coverage, hal_sig, normalize_params};
use spire_build::cpp::{HalContractMethod, HalImplMethod};
use spire_build::generate::{
    generate_hal_module_header, generate_hal_module_header_clean, generate_hal_placeholder_source,
    hal_impl_class_name, hal_meson_upsert_sources, hal_meson_var_section, is_hal_stub,
};
use spire_build::meson::{find_platform_values, follow_lists, resolve_target_deps};
use spire_build::meson_module::MesonBuildModule;
use spire_build::modify::{add_once, worse};
use spire_build::project::{Entry, ProjectTree};
use spire_build::regexes::{find_matches, replace_matches, text_at};
use spire_build::rust_contract::{find_drift, list_absent, missing_trait_methods_rust};
use spire_build::spire_app_scaffold::spire_app_scaffold;
use spire_build::types::ProjectStructure;

fn texts(list: &[&str]) -> Vec<String> {
    list.iter().map(|s| s.to_string()).collect()
}

fn method(ret: &str, name: &str, params: &str) -> HalContractMethod {
    HalContractMethod { name: name.to_string(), return_type: ret.to_string(), params: params.to_string() }
}

fn defined(ret: &str, name: &str, params: &str) -> HalImplMethod {
    HalImplMethod { name: name.to_string(), return_type: ret.to_string(), params: params.to_string() }
}

#[test]
fn a_difference_turns_round() {
    let a = summarize_hal_header("class A { public: virtual int f(int x) = 0; virtual void g() = 0; };\n").unwrap();
    let b = summarize_hal_header("class A { public: virtual int f(float x) = 0; virtual void h() = 0; };\n").unwrap();
    let there = diff_hal_contracts(&a, &b);
    let back = diff_hal_contracts(&b, &a);
    assert_eq!(there.added, texts(&["h"]));
    assert_eq!(there.removed, texts(&["g"]));
    assert_eq!(there.changed.len(), 1);
    assert_eq!(there.changed[0].0, "f");
    assert_eq!(there.added, back.removed);
    assert_eq!(there.removed, back.added);
    assert_eq!(back.changed[0].0, "f");
    let same = diff_hal_contracts(&a, &a);
    assert!(same.added.is_empty() && same.removed.is_empty() && same.changed.is_empty());
}

#[test]
fn the_names_of_parameters_do_not_count() {
    assert_eq!(normalize_params("int rate, const char* name"), normalize_params("int r, const char* n"));
    assert_eq!(normalize_params(" int  a = 3 ,, Frame"), "int, Frame");
    assert_eq!(hal_sig("bool", "start", " int rate "), "bool start(int rate)");
    assert_eq!(hal_sig("", "start", ""), "start()");
    let contract = vec![method("bool", "start", "int rate")];
    let cov = coverage_from(&contract, &vec![defined("bool", "start", "int r")], true, false);
    assert!(cov.implemented && cov.drifted.is_empty() && cov.missing.is_empty());
}

#[test]
fn a_stub_lacks_every_method() {
    let contract = vec![method("bool", "start", ""), method("void", "stop", "")];
    let cov = coverage_from(&contract, &vec![defined("bool", "start", "")], true, true);
    assert!(!cov.implemented && cov.is_stub);
    assert_eq!(cov.missing, texts(&["start", "stop"]));
    assert_eq!(cov.missing_sigs.len(), 2);
    let (by_platform, by_interface) =
        flatten_hal_coverage(&vec![("rpi5".to_string(), vec![("camera_hal".to_string(), cov)])]);
    assert_eq!(by_platform, vec![("rpi5".to_string(), texts(&["camera_hal"]))]);
    assert_eq!(by_interface, vec![("camera_hal".to_string(), texts(&["rpi5"]))]);
}

#[test]
fn another_signature_is_drift() {
    let contract = vec![method("bool", "start", "int rate")];
    let cov = coverage_from(&contract, &vec![defined("bool", "start", "float rate")], true, false);
    assert!(!cov.implemented);
    assert_eq!(cov.drifted.len(), 1);
}

#[test]
fn what_is_generated_is_pending() {
    let methods = vec![method("bool", "start", "int rate")];
    assert!(is_hal_stub(&generate_hal_placeholder_source("camera_hal", "CameraHAL", &methods, "rpi5")));
    assert!(is_hal_stub(&generate_hal_module_header("camera_hal", "CameraHalRpi5", "CameraHAL", &methods, "rpi5")));
    assert!(!is_hal_stub(&generate_hal_module_header_clean(
        "camera_hal",
        "CameraHalRpi5",
        "CameraHAL",
        &methods,
        "rpi5"
    )));
    assert_eq!(hal_impl_class_name("camera_hal", "rpi5"), "CameraHalRpi5");
    assert_eq!(hal_impl_class_name("ß_x", "_é"), "SSXÉ");
}

#[test]
fn a_list_is_brought_up_to_date_once() {
    let text = format!(
        "project('demo')\n{}",
        hal_meson_var_section("rpi5", &texts(&["camera_hal", "audio_hal"]))
    );
    let stems = texts(&["camera_hal"]);
    let files = texts(&["camera_hal_rpi5.cpp"]);
    let once = hal_meson_upsert_sources(&text, "rpi5", &stems, &files);
    assert!(once.contains("camera_hal_rpi5.cpp"));
    assert!(!once.contains("camera_hal.cpp"));
    assert!(once.contains("audio_hal"));
    assert_eq!(once.matches("camera_hal_rpi5.cpp").count(), 1);
    assert_eq!(hal_meson_upsert_sources(&once, "rpi5", &stems, &files), once);
}

#[test]
fn lists_are_followed_to_the_end() {
    let lists = vec![
        ("all_deps".to_string(), texts(&["core_deps", "zlib"])),
        ("core_deps".to_string(), texts(&["all_deps", "threads"])),
        ("other".to_string(), texts(&["unused"])),
    ];
    let found = follow_lists(&lists, &texts(&["all_deps"]));
    for name in ["all_deps", "core_deps", "zlib", "threads"] {
        assert!(found.contains(&name.to_string()), "{name}: {found:?}");
    }
    assert!(!found.contains(&"unused".to_string()));
}

#[test]
fn a_target_has_the_dependencies_of_its_lists() {
    let section = "zlib_dep = dependency('zlib')\napp_deps = [zlib_dep]\nexecutable('app', 'main.c', dependencies: app_deps)\n";
    let deps = resolve_target_deps(section, "executable('app', 'main.c', dependencies: app_deps)");
    let names: Vec<&str> = deps.iter().map(|d| d.name.as_str()).collect();
    assert_eq!(names, vec!["zlib"]);
}

#[test]
fn platform_values_are_read_from_the_options() {
    let text = "option('platform', type: 'string', value: 'host', description: 'Valid values: host, rpi5')\n";
    assert_eq!(find_platform_values(&Some(text.to_string())), texts(&["host", "rpi5"]));
    let text = "option('platform', type: 'string', value: 'host')\n";
    assert_eq!(find_platform_values(&Some(text.to_string())), texts(&["host"]));
    assert!(find_platform_values(&Some("option('other', value: 'x')\n".to_string())).is_empty());
    assert!(find_platform_values(&None).is_empty());
}

#[test]
fn what_is_absent_was_required() {
    assert_eq!(list_absent(&texts(&["on", "off"]), &texts(&["on", "other"])), texts(&["off"]));
    let contract = "pub trait Led { fn on(&self); fn off(&self); }\n";
    let full = "impl Led for Pin { fn on(&self) {} fn off(&self) {} }\n";
    let half = "impl Led for Pin { fn on(&self) {} }\n";
    assert!(missing_trait_methods_rust(contract, full).is_empty());
    assert_eq!(missing_trait_methods_rust(contract, half), vec![("Led".to_string(), texts(&["off"]))]);
    let none: Vec<(String, Vec<String>)> = Vec::new();
    assert!(find_drift(&none, &none).is_empty());
}

#[test]
fn a_leg_that_did_not_run_did_not_get_worse() {
    assert!(worse(Some(0), Some(1)));
    assert!(!worse(Some(1), Some(1)));
    assert!(!worse(None, Some(5)) && !worse(Some(0), None) && !worse(None, None));
    let mut list = texts(&["a"]);
    add_once(&mut list, "a");
    add_once(&mut list, "b");
    assert_eq!(list, texts(&["a", "b"]));
}

#[test]
fn a_crate_name_has_no_blank() {
    let out = spire_app_scaffold("  A B  C ");
    assert_eq!(out.dependency_sections, texts(&["crates/a-b--c/Cargo.toml"]));
}

#[test]
fn a_summary_is_read_back() {
    let header = "class A { public: virtual bool start(int rate = 3, Frame f) = 0; };\nclass B { public: virtual void g() = 0; };\n";
    let classes = parse_hal_contract_summary(&summarize_hal_header(header).unwrap());
    assert_eq!(classes.len(), 2);
    assert_eq!(classes[0].0, "A");
    assert_eq!(classes[0].1[0], method("bool", "start", "int rate, Frame f"));
    assert_eq!(classes[1], ("B".to_string(), vec![method("void", "g", "")]));
    let direct = vec![("C".to_string(), vec![method(" unsigned   int ", "h", " int a = 1 ,, int b ")])];
    let read = parse_hal_contract_summary(&summarize_classes(&direct));
    assert_eq!(read, vec![("C".to_string(), vec![method("unsigned int", "h", "int a, int b")])]);
}

#[test]
fn an_appended_list_is_found_again() {
    let files = texts(&["b.cpp", "a.cpp"]);
    let once = hal_meson_upsert_sources("project('demo')\n", "rpi5", &Vec::new(), &files);
    assert_eq!(
        once,
        "project('demo')\nhal_impl_rpi5_sources = files(\n        'implementations/rpi5/a.cpp',\n        'implementations/rpi5/b.cpp',\n    )\n"
    );
    assert_eq!(hal_meson_upsert_sources(&once, "rpi5", &Vec::new(), &files), once);
    let open = hal_meson_upsert_sources("hal_impl_rpi5_sources = files('c.cpp'\n", "rpi5", &Vec::new(), &files);
    assert_eq!(hal_meson_upsert_sources(&open, "rpi5", &Vec::new(), &files), open);
    let stubs = texts(&["camera_hal_stub.cpp"]);
    let stems = texts(&["camera_hal"]);
    let listed = hal_meson_upsert_sources(&once, "rpi5", &stems, &stubs);
    assert_eq!(hal_meson_upsert_sources(&listed, "rpi5", &stems, &stubs), listed);
}

#[test]
fn a_finished_header_is_the_pending_one_cleaned() {
    let methods = vec![method("bool", "start", ""), method("void", "~CameraHAL", "")];
    let pending = generate_hal_module_header("camera_hal", "CameraHalRpi5", "CameraHAL", &methods, "rpi5");
    let clean = generate_hal_module_header_clean("camera_hal", "CameraHalRpi5", "CameraHAL", &methods, "rpi5");
    let from = pending.find("#include").unwrap();
    assert_eq!(clean, pending[from..].replace("// TODO: platform state", "// Platform state"));
    assert!(is_hal_stub(&pending) && !is_hal_stub(&clean));
    assert!(!clean.contains("#pragma message") && !clean.contains("TODO"));
}

/// The texts of a pattern's first groups.
fn groups(pattern: &str, text: &str) -> Vec<String> {
    let chars: Vec<char> = text.chars().collect();
    find_matches(pattern, text).iter().map(|m| text_at(&chars, m, 1).unwrap()).collect()
}

#[test]
fn a_scaffold_is_read_back() {
    let plats = texts(&["rpi5", "rock-3_c"]);
    let module = MesonBuildModule::new();
    let out = module.scaffold_layout("my-app_2", "", &plats, ProjectStructure::SingleSource).unwrap();
    let entries: Vec<Entry> = out
        .files
        .iter()
        .map(|f| Entry { path: f.path.clone(), is_dir: false, content: Some(f.content.clone()) })
        .collect();
    let tree = ProjectTree { root: "/w/p".to_string(), entries };
    let top = tree.read("meson.build").unwrap();
    assert_eq!(top, out.build_content);
    assert_eq!(replace_matches("(?m)#.*$", &top, ""), top);
    assert_eq!(groups("project\\s*\\(\\s*['\"]([^'\"]+)['\"]", &top), texts(&["my-app_2"]));
    assert_eq!(groups("subdir\\s*\\(\\s*['\"]([^'\"]+)['\"]", &top), plats);
    let mut text = top.clone();
    for plat in &plats {
        let build = tree.read(&format!("{plat}/meson.build")).unwrap();
        assert_eq!(replace_matches("(?m)#.*$", &build, ""), build);
        text = text + "\n" + &build;
    }
    let names = texts(&["my-app_2-rpi5", "my-app_2-rock-3_c"]);
    assert_eq!(groups("executable\\s*\\(\\s*['\"]([^'\"]+)['\"]", &text), names);
    for kind in ["(?:^|[^[:alnum:]_])library", "shared_library", "static_library", "both_libraries", "jar", "shared_module"] {
        assert!(groups(&format!("{kind}\\s*\\(\\s*['\"]([^'\"]+)['\"]"), &text).is_empty());
    }
    let options = tree.read("meson_options.txt").unwrap();
    assert_eq!(
        groups("(?i)valid\\s+values\\s*:\\s*([A-Za-z0-9_ ,\\-]+)", &options),
        texts(&["rpi5, rock-3_c"])
    );
    let m = module.analyze(&tree, &Ok(top)).unwrap();
    let found: Vec<String> = m.targets.iter().map(|t| t.name.clone()).collect();
    assert_eq!(found, names);
    assert_eq!(m.platform_targets, plats);
    assert_eq!(m.project_name.as_deref(), Some("my-app_2"));
}
