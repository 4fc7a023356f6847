//! What the analysis says of small projects, one question each.

use spire_build::contract::{parse_hal_contract_summary, summarize_hal_header};
use spire_build::coverage::{hal_interface_coverage, normalize_params};
use spire_build::cpp::{
    classify_hal_header, cpp_syntax_check, extract_contract_methods_cpp, extract_cpp_method_definitions_ts, HalContractMethod,
    HalHeaderKind,
};
use spire_build::docs::{hal_doc_lint, inline_field_docs, parse_hal_docs, HalDoc, HalDocTag};
use spire_build::graph::hal_graph;
use spire_build::meson_hal::detect_hal_interfaces;
use spire_build::meson_module::MesonBuildModule;
use spire_build::meson::{find_platform_values, read_meson_project, resolve_target_deps};
use spire_build::migration::{hal_sanity_check, pull_in_hal};
use spire_build::modify_contract::hal_gaps;
use spire_build::project::{Entry, ProjectTree};
use spire_build::report::hal_report;
use spire_build::rust_contract::{board_coverage, missing_trait_methods_rust};
use spire_build::types::{BuildTarget, ProjectStructure};
use spire_build::source::{extract_cpp_methods, match_closing_brace, parse_key_value};

fn tree(files: &[(&str, &str)]) -> ProjectTree {
    let mut t = ProjectTree { root: "/p".to_string(), entries: Vec::new() };
    for (path, content) in files {
        let mut dir = String::new();
        let parts: Vec<&str> = path.split('/').collect();
        for part in &parts[..parts.len() - 1] {
            if !dir.is_empty() {
                dir.push('/');
            }
            dir.push_str(part);
            if !t.entries.iter().any(|e| e.path == dir) {
                t.entries.push(Entry { path: dir.clone(), is_dir: true, content: None });
            }
        }
        t.entries.push(Entry { path: path.to_string(), is_dir: false, content: Some(content.to_string()) });
    }
    t
}

const CAMERA: &str = "class CameraHAL {\npublic:\n    virtual bool start() = 0;\n};\n";

#[test]
fn a_mixed_layout_lists_the_contracts_of_both_places() {
    let t = tree(&[
        ("hal/api/camera_hal.hpp", CAMERA),
        ("hal/implementations/rpi5/camera_hal_imx219.cpp", "// impl\n"),
        ("toolkit/src/hal/api/config_loader.cpp", "// orphan impl\n"),
    ]);
    let r = hal_sanity_check(&t);
    assert_eq!(r.interfaces, vec!["camera_hal"]);
    assert_eq!((r.status.as_str(), r.layout.as_str()), ("issues", "mixed"));
    assert!(r.issues.iter().any(|i| i.title == "Mixed HAL layout"));
    assert!(!r.issues.iter().any(|i| i.title == "No HAL contracts"));
    let t = tree(&[
        ("hal/api/camera_hal.hpp", CAMERA),
        ("toolkit/src/hal/api/camera_hal.hpp", CAMERA),
        ("toolkit/src/hal/api/audio_hal.hpp", CAMERA),
    ]);
    assert_eq!(hal_sanity_check(&t).interfaces, vec!["camera_hal", "audio_hal"]);
}

#[test]
fn a_file_of_the_stem_is_an_implementation() {
    let contract = vec![HalContractMethod {
        name: "start".to_string(),
        return_type: "bool".to_string(),
        params: String::new(),
    }];
    let t = tree(&[("impl/camera_hal_rpi5.cpp", "// empty\n")]);
    let c = hal_interface_coverage(&contract, "camera_hal", &t, "impl");
    assert!(c.has_impl && !c.implemented);
    assert_eq!(c.missing, vec!["start"]);
    assert!(!hal_interface_coverage(&contract, "audio_hal", &t, "impl").has_impl);
}

#[test]
fn one_placeholder_keeps_a_board_from_being_implemented() {
    let t = tree(&[("src/lib.rs", "impl Board { fn led() { unimplemented!() } fn delay() {} }")]);
    let c = board_coverage(&t, "src").unwrap();
    assert!(c.has_impl && c.missing.is_empty() && !c.implemented && !c.is_stub);
    let t = tree(&[("src/lib.rs", "impl Board { fn led() { unimplemented!() } fn delay() { unimplemented!() } }")]);
    assert!(board_coverage(&t, "src").unwrap().is_stub);
    let t = tree(&[("src/lib.rs", "impl Board { fn led() {} fn delay() {} }")]);
    assert!(board_coverage(&t, "src").unwrap().implemented);
}

#[test]
fn a_block_comment_ends_where_it_is_closed() {
    let width = HalDoc {
        target: "w".to_string(),
        kind: "field".to_string(),
        tags: vec![HalDocTag { name: "@brief".to_string(), key: "brief".to_string(), value: "Width.".to_string() }],
        prose: String::new(),
    };
    assert_eq!(parse_hal_docs("/** @brief Width. */\nint w;\n"), vec![width.clone()]);
    assert_eq!(parse_hal_docs("/** @brief Width. */ int w;\n"), vec![width.clone()]);
    assert_eq!(parse_hal_docs("/**\n * @brief Width. */\nint w;\n"), vec![width.clone()]);
    assert_eq!(parse_hal_docs("/**\n * @brief Width.\n */\nint w;\n"), vec![width]);
    assert!(parse_hal_docs("/**/\nint w;\n").is_empty());
}

#[test]
fn only_the_name_of_a_parameter_goes() {
    assert_eq!(normalize_params("const Foo&, int qp = 26"), "const Foo&, int");
    assert_eq!(normalize_params("const Foo& a, Foo &b, Foo*c, Foo & d"), "const Foo&, Foo&, Foo*, Foo&");
    assert_eq!(normalize_params("unsigned int, const Foo, Foo const, std::string"), "unsigned int, const Foo, Foo const, std::string");
    assert_eq!(normalize_params("unsigned x, char name[16], void (*done)(int)"), "unsigned, char[16], void (*)(int)");
}

#[test]
fn a_word_in_a_comment_declares_no_class() {
    let kind = |text: &str| classify_hal_header(&Some(text.to_string()));
    assert_eq!(kind("// a class of helpers\nint helper();\n"), HalHeaderKind::NoClass);
    assert_eq!(kind("struct Frame { int w; };\n"), HalHeaderKind::DataOnly);
    assert_eq!(kind(CAMERA), HalHeaderKind::Contract);
    assert_eq!(classify_hal_header(&None), HalHeaderKind::ParseError);
}

#[test]
fn a_section_is_named_with_or_without_brackets() {
    let text = "[tool]\nname = \"no\"\n[project]\nname = \"demo\"\nversion = '1.0'\n";
    for section in ["[project]", "project"] {
        let m = parse_key_value("/p", "config", &Ok(text.to_string()), section).unwrap();
        assert_eq!(m.project_name, Some("demo".to_string()));
        assert_eq!(m.version, Some("1.0".to_string()));
        assert_eq!(m.description, None);
        assert_eq!(m.config_files, vec!["config"]);
    }
    assert_eq!(parse_key_value("/p", "config", &Ok(text.to_string()), "[none]").unwrap().project_name, None);
}

#[test]
fn a_drifted_interface_is_a_gap_of_its_own_size() {
    let t = tree(&[
        ("hal/api/cam.hpp", "class Cam { public: virtual void f(int a) = 0; };"),
        ("hal/implementations/p/cam_p.cpp", "void CamP::f() {}\n"),
    ]);
    let gaps = hal_gaps(&t, "p");
    assert_eq!(gaps.open.len(), 1);
    let g = &gaps.open[0];
    assert_eq!(g.id(), "p/cam");
    assert!(g.missing.is_empty() && !g.stub);
    assert_eq!(g.drifted.len(), 1);
    assert_eq!(gaps.size(), 1);
}

#[test]
fn a_list_grows_and_is_replaced() {
    let section = "a_dep = dependency('liba')\nb_dep = dependency('libb')\ncore_deps = [a_dep]\ncore_deps += [b_dep]\n";
    let names = |section: &str| {
        resolve_target_deps(section, "dependencies: core_deps").iter().map(|d| d.name.clone()).collect::<Vec<_>>()
    };
    assert_eq!(names(section), vec!["liba", "libb"]);
    assert_eq!(names(&format!("{section}core_deps = [b_dep]\n")), vec!["libb"]);
    let looped = "a_dep = dependency('liba')\nb_dep = dependency('libb')\ncore_deps = []\nforeach d : [a_dep, b_dep]\n  if d.found()\n    core_deps += d\n  endif\nendforeach\n";
    assert_eq!(names(looped), vec!["liba", "libb"]);
}

#[test]
fn an_implementation_file_leads_to_its_contract() {
    let t = tree(&[
        (
            "hal/api/camera_hal.hpp",
            "namespace hal { struct ICameraHAL : hal::HalModule { virtual bool capture(int t) = 0; }; }",
        ),
        ("hal/implementations/rpi5/camera_hal_imx219.cpp", "bool Rpi5Cam::capture(int t) { return true; }\n"),
    ]);
    let g = hal_graph(&t);
    let edges: Vec<_> = g.edges.iter().filter(|e| e.kind == "implements").collect();
    assert_eq!(edges.len(), 1);
    let file = g.nodes.iter().find(|n| n.kind == "HalImpl").unwrap();
    assert_eq!((file.platform.as_str(), file.name.as_str()), ("rpi5", "camera_hal_imx219"));
    let contract = g.nodes.iter().find(|n| n.kind == "HalContract").unwrap();
    assert_eq!(contract.name, "ICameraHAL");
    assert_eq!((&edges[0].from, &edges[0].to), (&file.id, &contract.id));
}

#[test]
fn the_graph_knows_the_legacy_layout_and_plain_contracts() {
    let t = tree(&[
        ("toolkit/src/hal/api/camera_hal.hpp", CAMERA),
        ("rpi5/hal/camera_hal_a.cpp", "bool A::start() { return true; }\n"),
        ("rpi5/hal/camera_hal_b.cpp", "// nothing yet\n"),
        ("rock3c/hal/main.cpp", "int main() { return 0; }\n"),
    ]);
    let g = hal_graph(&t);
    assert!(g.nodes.iter().any(|n| n.kind == "HalContract" && n.name == "CameraHAL"));
    assert!(!g.nodes.iter().any(|n| n.kind == "HalType"));
    assert!(!g.edges.iter().any(|e| e.kind == "derives"));
    assert_eq!(g.nodes.iter().filter(|n| n.kind == "HalImpl" && n.platform == "rpi5").count(), 2);
    assert_eq!(g.edges.iter().filter(|e| e.kind == "implements").count(), 2);
    let missing: Vec<_> = g.edges.iter().filter(|e| e.kind == "missing").collect();
    assert_eq!(missing.len(), 1);
    assert_eq!((missing[0].from.as_str(), missing[0].to.as_str()), ("contract:CameraHAL", "platform:rock3c"));
}

#[test]
fn a_contract_method_may_return_a_pointer_or_a_reference() {
    let text = "class A {\npublic:\n    virtual Frame* take(int n) = 0;\n    virtual const std::string& name() const = 0;\n    virtual Frame **all() = 0;\n    virtual void stop() = 0;\n};\n";
    let classes = extract_contract_methods_cpp(text);
    let found: Vec<(&str, &str, &str)> = classes[0]
        .1
        .iter()
        .map(|m| (m.return_type.as_str(), m.name.as_str(), m.params.as_str()))
        .collect();
    assert_eq!(
        found,
        vec![("Frame*", "take", "int n"), ("const std::string&", "name", ""), ("Frame**", "all", ""), ("void", "stop", "")]
    );
}

#[test]
fn only_qualified_definitions_are_methods() {
    let text = "static int helper(int a) { return a; }\nFrame* Cam::take(int n) { return nullptr; }\nconst std::string& Cam::name() const { return n_; }\nCam::Cam() {}\nCam::~Cam() {}\nclass B { int inner() { return 1; } };\n";
    let found: Vec<(String, String)> =
        extract_cpp_method_definitions_ts(text).into_iter().map(|m| (m.return_type, m.name)).collect();
    assert_eq!(
        found,
        vec![
            ("Frame*".to_string(), "take".to_string()),
            ("const std::string&".to_string(), "name".to_string()),
        ]
    );
}

const MEMBERS: &str = "class FrameBuffer;

class CameraHAL {
public:
    virtual bool start() = 0;
    explicit CameraHAL(int fd);
    virtual ~CameraHAL() = default;
private:
    void hidden() {
        if (ready()) {
            stop();
        }
    }
    struct Inner {
    public:
        void deep();
    };
    std::uint32_t after();
};
";

#[test]
fn a_member_function_is_read_as_it_is_declared() {
    let found = extract_cpp_methods(MEMBERS);
    let list: Vec<(&str, &str)> =
        found.iter().map(|(c, m)| (c.as_str(), m.name.as_deref().unwrap_or(""))).collect();
    assert_eq!(
        list,
        vec![
            ("CameraHAL", "start"),
            ("CameraHAL", "CameraHAL"),
            ("CameraHAL", "~CameraHAL"),
            ("CameraHAL", "hidden"),
            ("CameraHAL", "after"),
            ("Inner", "deep"),
        ]
    );
    let start = &found[0].1;
    assert_eq!(start.return_type.as_deref(), Some("bool"));
    assert_eq!(start.signature.as_deref(), Some("virtual bool start() = 0;"));
    assert_eq!((start.start_line, start.start_col), (5, 4));
    assert!(start.is_public);
    assert_eq!(found[1].1.return_type, None);
    assert_eq!(found[2].1.return_type, None);
    assert!(found[1].1.is_public && found[2].1.is_public);
    assert!(!found[3].1.is_public && !found[4].1.is_public);
    assert_eq!(found[4].1.return_type.as_deref(), Some("std::uint32_t"));
    assert!(found[5].1.is_public);
}

#[test]
fn a_brace_in_a_string_closes_nothing() {
    let text: Vec<char> = "{ \"}\\\"}\" { } } x".chars().collect();
    assert_eq!(match_closing_brace(&text, 0), Some(14));
    assert_eq!(match_closing_brace(&text, 1), None);
    let open: Vec<char> = "{ { }".chars().collect();
    assert_eq!(match_closing_brace(&open, 0), None);
}

#[test]
fn a_default_of_zero_does_not_make_a_method_pure() {
    let found = extract_contract_methods_cpp(
        "class A {\npublic:\n    virtual bool start(int t = 0);\n    virtual void stop() =  0;\n    virtual int id() const =0;\n};\n",
    );
    assert_eq!(found.len(), 1);
    let names: Vec<&str> = found[0].1.iter().map(|m| m.name.as_str()).collect();
    assert_eq!(names, vec!["stop", "id"]);
}

#[test]
fn a_trailing_comment_does_not_name_a_field() {
    let docs = parse_hal_docs(
        "/// The handle.\nint fd = open(path); // owned (by us)\n/// A width.\nint width{0};\n/// A method.\npublic:\n    virtual bool *start(int t) = 0; // now\n",
    );
    let seen: Vec<(&str, &str, &str)> =
        docs.iter().map(|d| (d.target.as_str(), d.kind.as_str(), d.prose.as_str())).collect();
    assert_eq!(
        seen,
        vec![
            ("fd", "field", "The handle. owned (by us)"),
            ("width", "field", "A width."),
            ("start", "method", "A method. now"),
        ]
    );
}

#[test]
fn only_fields_have_inline_comments() {
    let fields = inline_field_docs(
        "namespace hal { // the layer\nstruct Frame { // one frame\n    int w = 0; // width\n    int h{0}; // height\n    bool ok(int a, int b); // a check\n}; // end\n} // namespace hal\n",
    );
    let seen: Vec<(&str, &str, &str)> =
        fields.iter().map(|f| (f.name.as_str(), f.field_type.as_str(), f.prose.as_str())).collect();
    assert_eq!(seen, vec![("h", "int", "height"), ("w", "int", "width")]);
}

#[test]
fn a_report_has_the_types_of_both_places() {
    let t = tree(&[
        (
            "hal/api/camera_hal.hpp",
            "class CameraHAL : public hal::HalModule {\npublic:\n    virtual Frame start(Size s) = 0;\n};\n",
        ),
        ("hal/api/size.hpp", "struct Size {\n    int w = 0; // width\n};\n"),
        ("hal/types/frame.hpp", "struct Frame {\n    /// The data.\n    int data = 0; // bytes\n};\n"),
    ]);
    let report = hal_report(&t);
    let names: Vec<&str> = report.types.iter().map(|d| d.name.as_str()).collect();
    assert_eq!(names, vec!["Frame", "Size"]);
    assert_eq!(report.types[0].header, "/p/hal/types/frame.hpp");
    assert_eq!(report.types[0].fields.len(), 1);
    assert_eq!(report.types[0].fields[0].prose, "The data. bytes");
    assert_eq!(report.types[1].fields[0].prose, "width");
    assert_eq!(report.contracts.len(), 1);
    assert_eq!(report.contracts[0].uses_types, vec!["Frame".to_string(), "Size".to_string()]);
}

#[test]
fn a_field_of_the_same_name_keeps_its_comment() {
    let t = tree(&[
        (
            "hal/api/camera_hal.hpp",
            "class CameraHAL : public hal::HalModule {\npublic:\n    virtual Frame start() = 0;\n};\n",
        ),
        (
            "hal/types/frame.hpp",
            "struct Frame {\n    /// The data.\n    int data = 0; // bytes\n    int size; // count\n};\nstruct Tail {\n    int data = 0; // words\n    long size; // length\n};\n",
        ),
    ]);
    let report = hal_report(&t);
    let fields: Vec<(&str, &str)> =
        report.types[0].fields.iter().map(|f| (f.name.as_str(), f.prose.as_str())).collect();
    assert_eq!(fields, vec![("data", "The data. bytes words"), ("size", "count length")]);
}

#[test]
fn every_class_and_every_comment_line_is_linted() {
    let t = tree(&[(
        "hal/api/pair.hpp",
        "/** @brief One.\n * @id hal.one\n * @nosuch tag\n */\nclass One {\npublic:\n    /// @brief Go.\n    virtual void go(int, Frame *f) = 0;\n};\nclass Two {\npublic:\n    /// @brief Stop.\n    virtual void stop() = 0;\n};\n",
    )]);
    let report = hal_doc_lint(&t);
    let seen: Vec<(&str, &str)> =
        report.files[0].issues.iter().map(|i| (i.symbol.as_str(), i.title.as_str())).collect();
    assert_eq!(
        seen,
        vec![
            ("Two", "contract missing @brief"),
            ("Two", "contract missing @id"),
            ("One::go", "method missing @param"),
            ("@nosuch", "unknown doc tag"),
        ]
    );
    assert_eq!(report.files[0].issues[2].message, "go parameter `f` undocumented");
}

#[test]
fn parameters_end_at_the_matching_parenthesis() {
    let header = "class A {\npublic:\n    virtual void on(std::function<void(int)> f, int n = max(1, 2), char c = ',') = 0;\n};\n";
    let summary = summarize_hal_header(header).unwrap();
    let parsed = parse_hal_contract_summary(&summary);
    assert_eq!(parsed.len(), 1);
    assert_eq!(parsed[0].1[0].name, "on");
    assert_eq!(parsed[0].1[0].return_type, "void");
    assert_eq!(parsed[0].1[0].params, "std::function<void(int)> f, int n, char c");
    assert_eq!(normalize_params("int n = max(1, 2), int k = 1 << 3, Size s = {1, 2}"), "int, int, Size");
}

#[test]
fn the_build_file_pulls_in_the_layer_behind_the_whole_project_call() {
    assert_eq!(
        pull_in_hal("project('a', 'cpp',\n  version: run('x'))\nsubdir('b')\n"),
        "project('a', 'cpp',\n  version: run('x'))\nsubdir('hal')\nsubdir('b')\n"
    );
    assert_eq!(pull_in_hal("project('a')"), "project('a')\nsubdir('hal')\n");
    assert_eq!(pull_in_hal("# none\n"), "subdir('hal')\n# none\n");
}

#[test]
fn a_mixed_layout_looks_below_the_platform() {
    let t = tree(&[
        ("meson.build", "project('d', 'cpp')\nsubdir('hal')\n"),
        ("hal/api/camera_hal.hpp", CAMERA),
        ("hal/implementations/rpi5/camera_hal.cpp", "// impl\n"),
        ("hal/meson.build", "hal_impl_rpi5_sources = files()\nhal_impl_rock_sources = files()\n"),
        ("docs/readme.md", "text\n"),
        ("rock/hal/camera_hal.cpp", "// impl\n"),
    ]);
    let report = hal_sanity_check(&t);
    assert_eq!(report.layout, "mixed");
    assert_eq!(report.platforms, vec!["rpi5".to_string(), "rock".to_string()]);
    let missing: Vec<(&str, &str)> = report
        .issues
        .iter()
        .filter(|i| i.title.contains("Missing HAL implementation"))
        .map(|i| (i.title.as_str(), i.path.as_str()))
        .collect();
    assert_eq!(missing, vec![("Missing HAL implementation for platform 'rpi5'", "/p/rpi5/hal")]);
}

#[test]
fn a_missing_token_without_a_name_is_not_listed() {
    let report = cpp_syntax_check("int f() { return 1 }\n");
    assert!(!report.ok);
    assert!(report.errors.is_empty(), "{:?}", report.errors);
}

#[test]
fn the_arguments_of_a_trait_are_no_part_of_its_name() {
    let contract = "pub trait Bus<T> { fn write(&mut self, t: T); }";
    let given = "impl hal::Bus<core::u8> for X { fn write(&mut self, t: u8) {} }";
    assert!(missing_trait_methods_rust(contract, given).is_empty());
}

#[test]
fn a_target_is_read_to_the_end_of_its_call() {
    let t = tree(&[("rpi5/main.cpp", "int main() {}\n")]);
    let m = read_meson_project(
        &t,
        "project('demo', 'cpp')\nthreads = dependency('threads', version: '>=2')\ncore_deps = [threads]\napp_sources = files('main.cpp')\nexecutable('demo', files('a.cpp'), app_sources, dependencies: core_deps)\n",
    );
    assert_eq!(m.version, None);
    assert_eq!(m.targets.len(), 1);
    assert_eq!(m.targets[0].source_files, vec!["a.cpp".to_string(), "main.cpp".to_string()]);
    let deps: Vec<&str> = m.targets[0].dependencies.iter().map(|d| d.name.as_str()).collect();
    assert_eq!(deps, vec!["threads"]);
    let m = read_meson_project(&t, "project('demo', 'cpp',\n  version : '1.2')\n");
    assert_eq!(m.version.as_deref(), Some("1.2"));
}

#[test]
fn the_platforms_are_those_of_the_platform_option() {
    let text = "option('mode', type: 'string', value: 'a', description: 'Valid values: a, b')\noption('platform', type: 'string', value: 'host', description: 'Target (one). Valid values: host, rpi5')\n";
    assert_eq!(find_platform_values(&Some(text.to_string())), vec!["host".to_string(), "rpi5".to_string()]);
    let text = "option('mode', value: 'a', description: 'Valid values: a, b')\noption('platform', value : 'rpi5')\n";
    assert_eq!(find_platform_values(&Some(text.to_string())), vec!["rpi5".to_string()]);
    assert!(find_platform_values(&None).is_empty());
}

#[test]
fn a_class_derived_from_the_contract_implements_it() {
    let t = tree(&[
        (
            "hal/api/camera_hal.hpp",
            "class CameraHAL {\npublic:\n    virtual bool start() = 0;\n    virtual void stop() = 0;\n};\n",
        ),
        ("hal/implementations/rpi5/imx219.cpp", "class Imx219 : public CameraHAL {\n    int fd;\n};\n"),
        ("hal/implementations/rock/mpp.cpp", "struct Mpp {\n    bool start() { return true; }\n};\n"),
        ("hal/implementations/rock/other.cpp", "int free_function() { return 1; }\n"),
        ("rock/hal/camera_hal_old.cpp", "bool Old::start() { return true; }\nvoid Old::stop() {}\n"),
    ]);
    let mut a = BuildTarget::default();
    a.platform = "rpi5".to_string();
    let mut b = BuildTarget::default();
    b.platform = "rock".to_string();
    let (interfaces, issues) = detect_hal_interfaces(&t, &vec![a, b]);
    assert_eq!(interfaces.len(), 1);
    assert_eq!(interfaces[0].implementations, vec!["rock".to_string(), "rpi5".to_string()]);
    let said: Vec<&str> = issues.iter().map(|i| i.message.as_str()).collect();
    assert_eq!(
        said,
        vec![
            "HAL interface camera_hal has 2 implementations for rock: mpp.cpp, camera_hal_old.cpp",
            "HAL interface camera_hal for platform rpi5 missing methods: start, stop",
            "HAL implementation other.cpp in rock has no interface header",
        ]
    );
}

#[test]
fn a_layered_scaffold_has_a_place_for_each_platform() {
    let platforms = vec!["host".to_string(), "rpi5".to_string(), "rock".to_string()];
    let out = MesonBuildModule::new().scaffold_layout("demo", "", &platforms, ProjectStructure::Hal).unwrap();
    let wiring = out.files.iter().find(|f| f.path == "hal/meson.build").unwrap();
    assert_eq!(
        wiring.content,
        "hal_impl_rpi5_sources = files('implementations/rpi5/gpio_hal_stub.cpp')\nhal_impl_rock_sources = files('implementations/rock/gpio_hal_stub.cpp')\n"
    );
    assert!(out.files.iter().any(|f| f.path == "hal/implementations/rock/gpio_hal_stub.cpp" && !f.structural));
    assert_eq!(out.fill_roots, vec!["rpi5", "rock", "hal/implementations/rpi5", "hal/implementations/rock"]);
}
