//! Structured comments, their lints, and the state of a project's contracts.

use spire_build::audit::hal_verify;
use spire_build::coverage::hal_interface_coverage;
use spire_build::cpp::HalContractMethod;
use spire_build::docs::{
    datatype_docs_to_prompt_text, hal_doc_block, hal_doc_fix_prompt, hal_doc_fix_prompt_all,
    hal_doc_fix_prompt_whole, hal_doc_lint, hal_doc_lint_file, hal_docs_to_prompt_text, hal_fix_plan_from_lint,
    inline_field_docs, parse_hal_docs, strip_code_fences, HalDocLintIssue,
};
use spire_build::generate::{
    generate_hal_impl_prompt_rich, generate_hal_module_pair, hal_platform_library_hints, is_hal_stub,
    remove_stale_hal_stubs, resolve_hal_impl_names, SPIRE_HAL_STUB_SENTINEL,
};
use spire_build::graph::{hal_graph, hal_query};
use spire_build::project::{Entry, ProjectTree};
use spire_build::report::{find_tag_value, hal_report};
use spire_build::state::{compute_hal_state, HalContractState, HalImplState};

fn tree(files: &[(&str, &str)]) -> ProjectTree {
    let mut t = ProjectTree { root: "/p".to_string(), entries: Vec::new() };
    for (path, content) in files {
        let mut dir = String::new();
        let parts: Vec<&str> = path.split('/').collect();
        for part in &parts[..parts.len() - 1] {
            if !dir.is_empty() {
                dir.push('/');
            }
            dir.push_str(part);
            if !t.entries.iter().any(|e| e.path == dir) {
                t.entries.push(Entry { path: dir.clone(), is_dir: true, content: None });
            }
        }
        t.entries.push(Entry { path: path.to_string(), is_dir: false, content: Some(content.to_string()) });
    }
    t
}

const CLEAN: &str = "namespace hal {\n/// @brief A camera.\n/// @id hal.camera\nclass CameraHAL : public HalModule {\npublic:\n    const char* id() const { return \"hal.camera\"; }\n    /// @brief Starts it.\n    /// @param rate frames per second\n    /// @return whether it runs\n    virtual bool start(int rate) = 0;\n};\n}\n";
const BARE: &str = "class CameraHAL {\npublic:\n    virtual bool start(int rate) = 0;\n};\n";
const IMPL: &str = "#include \"camera_hal.hpp\"\nbool CameraHAL::start(int rate) { return true; }\n";

#[test]
fn a_comment_belongs_to_what_follows() {
    let docs = parse_hal_docs(CLEAN);
    assert_eq!(docs.len(), 2);
    assert_eq!((docs[0].target.as_str(), docs[0].kind.as_str()), ("CameraHAL", "contract"));
    assert_eq!(find_tag_value(&docs[0].tags, "@id"), Some("hal.camera".to_string()));
    assert_eq!((docs[1].target.as_str(), docs[1].kind.as_str()), ("start", "method"));
    assert_eq!(docs[1].tags[1].key, "rate");
    assert_eq!(docs[1].tags[1].value, "frames per second");
}

#[test]
fn separators_and_inline_comments_are_told_apart() {
    let docs = parse_hal_docs("// ─────\n// The width.\nint width = 3; // in pixels\n");
    assert_eq!(docs.len(), 1);
    assert_eq!((docs[0].target.as_str(), docs[0].kind.as_str()), ("width", "field"));
    assert_eq!(docs[0].prose, "The width. in pixels");
}

#[test]
fn docs_are_written_out() {
    let docs = parse_hal_docs(CLEAN);
    assert_eq!(
        hal_docs_to_prompt_text(&docs),
        "[contract/CameraHAL] \n    @brief: A camera.\n    @id: hal.camera\n[method/start] \n    @brief: Starts it.\n    @param rate: frames per second\n    @return: whether it runs"
    );
    assert!(hal_doc_block(&docs).starts_with("--- CameraHAL (contract) ---\n@brief A camera.\n@id hal.camera\n"));
    let t = tree(&[("hal/types/frame.hpp", "/// @brief A frame.\nstruct Frame {};\n"), ("hal/types/x.txt", "/// no\nint x;\n")]);
    assert_eq!(
        datatype_docs_to_prompt_text(&t),
        "## frame.hpp\n[type/Frame] \n    @brief: A frame."
    );
    assert_eq!(datatype_docs_to_prompt_text(&tree(&[])), "");
}

#[test]
fn fields_have_comments_of_their_own() {
    let found = inline_field_docs("struct F {\n    int width = 0; // in pixels\n    uint8_t* data;\n};\n");
    assert!(found.iter().any(|f| f.name == "width" && f.prose == "in pixels" && f.field_type == "int"), "{found:?}");
}

#[test]
fn a_bare_contract_has_its_issues() {
    let t = tree(&[("hal/api/camera_hal.hpp", BARE)]);
    let report = hal_doc_lint(&t);
    assert_eq!(report.files.len(), 1);
    assert_eq!(report.files[0].path, "/p/hal/api/camera_hal.hpp");
    let titles: Vec<&str> = report.files[0].issues.iter().map(|i| i.title.as_str()).collect();
    assert_eq!(
        titles,
        vec![
            "contract missing @brief",
            "contract missing @id",
            "method missing @brief",
            "method missing @param",
            "method missing @return",
        ]
    );
    assert_eq!(report.files[0].issues[3].message, "start parameter `rate` undocumented");
    assert_eq!(report.files[0].issues[4].symbol, "CameraHAL::start");
    assert_eq!(hal_doc_lint_file(&t, "/p/hal/api/camera_hal.hpp").len(), 5);
    assert!(hal_doc_lint_file(&t, "/p/other.hpp").is_empty());
}

#[test]
fn an_unknown_tag_is_a_warning() {
    let text = format!("{CLEAN}// @wrong here and @worse there\n");
    let t = tree(&[("hal/api/camera_hal.hpp", &text)]);
    let issues = hal_doc_lint_file(&t, "/p/hal/api/camera_hal.hpp");
    assert_eq!(issues.len(), 1);
    assert_eq!((issues[0].severity.as_str(), issues[0].symbol.as_str()), ("warning", "@wrong"));
}

#[test]
fn a_fix_is_asked_for() {
    let issue = HalDocLintIssue {
        severity: "error".to_string(),
        title: "T".to_string(),
        path: "p.hpp".to_string(),
        symbol: "S".to_string(),
        message: "M".to_string(),
        fix_prompt: "F".to_string(),
    };
    assert_eq!(
        hal_doc_fix_prompt(&issue),
        "Fix this HAL documentation issue.\nSymbol: S\nIssue: M\nPath: p.hpp\n\nF"
    );
    let all = hal_doc_fix_prompt_all("p.hpp", &vec![issue.clone(), issue.clone()]);
    assert!(all.starts_with("Fix the HAL documentation issues in this C++ header.\nFile: p.hpp\n\n1. Symbol: S   Issue: T   M \n2. Symbol: S"));
    let whole = hal_doc_fix_prompt_whole("p.hpp", "int x;", &vec![issue]);
    assert!(whole.contains("1. [S] T — M\n"));
    assert!(whole.contains("```cpp\nint x;\n```"));
    let t = tree(&[("hal/api/a.hpp", CLEAN), ("hal/api/b.hpp", BARE)]);
    let plan = hal_fix_plan_from_lint(&hal_doc_lint(&t));
    assert_eq!(plan.steps.len(), 1);
    assert_eq!(plan.steps[0].path, "/p/hal/api/b.hpp");
    assert_eq!(plan.steps[0].prompt, hal_doc_fix_prompt_all("/p/hal/api/b.hpp", &plan.steps[0].issues));
}

#[test]
fn fences_are_taken_off() {
    assert_eq!(strip_code_fences("```cpp\nint x;\n```\n"), "int x;");
    assert_eq!(strip_code_fences("```\nint x;"), "int x;");
    assert_eq!(strip_code_fences("  int x; "), "int x;");
}

#[test]
fn the_state_goes_from_none_to_clean() {
    assert_eq!(compute_hal_state(&tree(&[])).contract, HalContractState::NoContract);
    let plain = compute_hal_state(&tree(&[("hal/api/camera_hal.hpp", BARE)]));
    assert_eq!(plain.contract, HalContractState::NoContract);
    let clean = compute_hal_state(&tree(&[("hal/api/camera_hal.hpp", CLEAN)]));
    assert_eq!(clean.contract, HalContractState::LintClean);
    assert_eq!((clean.lint_issues, clean.syntax_errors), (0, 0));
    let undocumented = CLEAN.replace("    /// @return whether it runs\n", "");
    let dirty = compute_hal_state(&tree(&[("hal/api/camera_hal.hpp", &undocumented)]));
    assert_eq!(dirty.contract, HalContractState::LintDirty { issues: 1 });
    assert_eq!(dirty.lint_issues, 1);
    let broken = CLEAN.replace("virtual bool start(int rate) = 0;", "virtual bool start(int rate) = 0; @@@ 3 (");
    let faulty = compute_hal_state(&tree(&[("hal/api/camera_hal.hpp", &broken)]));
    assert!(matches!(faulty.contract, HalContractState::InvalidSyntax { errors } if errors > 0));
}

#[test]
fn a_platform_has_a_row() {
    let done = tree(&[
        ("hal/api/camera_hal.hpp", CLEAN),
        ("hal/implementations/rpi5/camera_hal_a.cpp", IMPL),
    ]);
    let rows = compute_hal_state(&done).implementations;
    assert_eq!(rows.len(), 1);
    assert_eq!(rows[0].platform, "rpi5");
    assert_eq!(rows[0].state, HalImplState::Complete);
    let other = IMPL.replace("int rate", "float rate");
    let drifted = tree(&[
        ("hal/api/camera_hal.hpp", CLEAN),
        ("hal/implementations/rpi5/camera_hal_a.cpp", &other),
    ]);
    let rows = compute_hal_state(&drifted).implementations;
    assert!(!matches!(rows[0].state, HalImplState::Complete), "{rows:?}");
}

#[test]
fn a_bare_contract_is_reported() {
    let t = tree(&[
        ("hal/api/camera_hal.hpp", BARE),
        ("hal/implementations/rpi5/lidar.cpp", "int x;\n"),
    ]);
    let titles: Vec<String> = hal_verify(&t).into_iter().map(|i| i.title).collect();
    assert_eq!(
        titles,
        vec![
            "contract not in namespace hal",
            "contract does not derive hal::HalModule",
            "contract missing @id doc",
            "method missing @brief",
            "incomplete HAL implementation",
            "orphan HAL implementation",
        ]
    );
    let changed = CLEAN.replace("return \"hal.camera\"", "return \"other\"");
    let issues = hal_verify(&tree(&[("hal/api/camera_hal.hpp", &changed)]));
    assert_eq!(issues.len(), 1);
    assert_eq!(issues[0].message, "doc @id `hal.camera` must match `id()` override");
    assert!(hal_verify(&tree(&[("hal/api/camera_hal.hpp", CLEAN)])).is_empty());
}

#[test]
fn a_query_looks_at_kind_name_and_platform() {
    let t = tree(&[
        ("hal/api/camera_hal.hpp", CLEAN),
        ("hal/implementations/rpi5/camera_hal_a.cpp", IMPL),
    ]);
    let graph = hal_graph(&t);
    let (all, edges) = hal_query(&graph, "");
    assert_eq!(all.len(), graph.nodes.len());
    assert!(edges.len() <= graph.edges.len());
    let (by_platform, touching) = hal_query(&graph, "RPI5");
    assert!(!by_platform.is_empty());
    for e in &touching {
        assert!(by_platform.iter().any(|n| n.id == e.from || n.id == e.to));
    }
    assert!(hal_query(&graph, "nothing of the kind").0.is_empty());
}

#[test]
fn a_report_lists_contracts_and_platforms() {
    let t = tree(&[
        ("hal/api/camera_hal.hpp", CLEAN),
        ("hal/implementations/rpi5/camera_hal_a.cpp", IMPL),
    ]);
    let r = hal_report(&t);
    assert_eq!(r.contracts.len(), 1);
    let c = &r.contracts[0];
    assert_eq!((c.stem.as_str(), c.class_name.as_str(), c.id.as_str()), ("camera_hal", "CameraHAL", "hal.camera"));
    assert_eq!(c.brief, "A camera.");
    assert_eq!(c.methods[0].name, "start");
    assert_eq!(c.platforms[0].platform, "rpi5");
    assert!(c.platforms[0].implemented);
}

#[test]
fn a_pair_is_a_stub_until_it_is_filled() {
    let methods = vec![HalContractMethod {
        name: "start".to_string(),
        return_type: "bool".to_string(),
        params: "int rate".to_string(),
    }];
    let (header, source) = generate_hal_module_pair("camera_hal", "CameraHAL", "CameraHalRpi5", &methods, "rpi5");
    assert!(is_hal_stub(&source) || is_hal_stub(&header));
    let t = tree(&[("impl/camera_hal_rpi5.cpp", &source)]);
    let cov = hal_interface_coverage(&methods, "camera_hal", &t, "impl");
    assert!(cov.is_stub && !cov.implemented);
    assert_eq!(cov.missing, vec!["start".to_string()]);
}

#[test]
fn stale_stubs_are_named() {
    let stub = format!("// {SPIRE_HAL_STUB_SENTINEL}\n");
    let files = vec![
        ("camera_hal.cpp".to_string(), Some(stub.clone())),
        ("camera_hal_real.cpp".to_string(), Some("int x;\n".to_string())),
        ("lidar.cpp".to_string(), Some(stub)),
        ("camera_hal_raw.cpp".to_string(), None),
    ];
    assert_eq!(remove_stale_hal_stubs(&files, "camera_hal"), vec!["camera_hal.cpp".to_string()]);
}

#[test]
fn names_do_not_collide() {
    let first = resolve_hal_impl_names("camera_hal", "rpi5", &Vec::new());
    let taken = vec![first.1.clone(), first.2.clone()];
    let second = resolve_hal_impl_names("camera_hal", "rpi5", &taken);
    assert!(!taken.contains(&second.1) && !taken.contains(&second.2), "{first:?} {second:?}");
}

#[test]
fn a_platform_has_hints() {
    assert!(hal_platform_library_hints("rpi5").contains("libcamera"));
    let prompt = generate_hal_impl_prompt_rich(
        "SUMMARY", "camera_hal", "CameraHAL", "rpi5", "Pi", "HW", "HINTS", "app", "DOCS", "TYPES", "MATRIX",
    );
    for part in ["SUMMARY", "camera_hal", "CameraHAL", "rpi5", "HW", "HINTS", "DOCS", "TYPES", "MATRIX"] {
        assert!(prompt.contains(part), "{part}");
    }
}
