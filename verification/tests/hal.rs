//! Contracts, coverage, documentation, graph and generated files of a hardware
//! abstraction layer.

use spire_build::audit::hal_verify;
use spire_build::contract::{
    diff_hal_contracts, parse_hal_contract_summary, summarize_hal_header,
};
use spire_build::coverage::{
    flatten_hal_coverage, hal_interface_coverage, hal_platform_coverage_map, normalize_params,
};
use spire_build::cpp::{
    classify_hal_header, cpp_syntax_check, extract_cpp_method_definitions_ts, HalContractMethod, HalHeaderKind,
};
use spire_build::docs::{
    hal_doc_fix_prompt_all, hal_doc_lint, parse_hal_docs, strip_code_fences, HalDocLintIssue,
};
use spire_build::generate::{
    generate_hal_impl_prompt, generate_hal_impl_prompt_pair, generate_hal_module_header_clean,
    generate_hal_placeholder_source, hal_impl_class_name, hal_meson_upsert_sources, hal_meson_var_section,
    is_hal_stub, resolve_hal_impl_names, resolve_semantic_hal_impl_names, SPIRE_HAL_STUB_SENTINEL,
};
use spire_build::graph::{hal_graph, hal_query};
use spire_build::project::{Entry, ProjectTree};
use spire_build::report::hal_report;
use spire_build::source::parse_cpp_source_file_std;

/// A project with these files, and the directories that lead to them.
fn tree(files: &[(&str, &str)]) -> ProjectTree {
    let mut t = ProjectTree { root: "/p".to_string(), entries: Vec::new() };
    for (path, content) in files {
        put(&mut t, path, content);
    }
    t
}

/// Adds the directory, and those that lead to it.
fn put_dir(t: &mut ProjectTree, path: &str) {
    let mut dir = String::new();
    for part in path.split('/') {
        if !dir.is_empty() {
            dir.push('/');
        }
        dir.push_str(part);
        if !t.entries.iter().any(|e| e.path == dir) {
            t.entries.push(Entry { path: dir.clone(), is_dir: true, content: None });
        }
    }
}

/// Writes the file, with the directories that lead to it.
fn put(t: &mut ProjectTree, path: &str, content: &str) {
    if let Some(i) = path.rfind('/') {
        put_dir(t, &path[..i]);
    }
    t.entries.retain(|e| e.path != path);
    t.entries.push(Entry {
        path: path.to_string(),
        is_dir: false,
        content: Some(content.to_string()),
    });
}

#[test]
fn cpp_header_method_extractor_captures_abstract_class_contract() {
    let content = r#"#pragma once
#include <cstdint>

class CameraHAL {
public:
    virtual ~CameraHAL() = default;
    virtual bool start() = 0;
    virtual std::uint32_t capture(int timeout_ms) = 0;
private:
    int fd_ = -1;
};
"#;
    let result = parse_cpp_source_file_std("camera_hal.hpp", &Ok(content.to_string())).unwrap();
    let class_idx = result
        .nodes
        .iter()
        .position(|n| n.node_type == "class" && n.name.as_deref() == Some("CameraHAL"))
        .expect("CameraHAL class node");
    let methods: Vec<_> = result.nodes.iter().filter(|n| n.node_type == "method").collect();
    let names: Vec<&str> = methods.iter().filter_map(|m| m.name.as_deref()).collect();
    assert!(names.contains(&"~CameraHAL"), "{:?}", names);
    assert!(names.contains(&"start"), "{:?}", names);
    assert!(names.contains(&"capture"), "{:?}", names);
    assert!(!names.contains(&"fd_"), "{:?}", names);

    let start = methods.iter().find(|m| m.name.as_deref() == Some("start")).unwrap();
    let sig = start.signature.as_deref().unwrap_or("");
    assert!(sig.contains("= 0") || sig.contains("=0"), "{}", sig);

    let capture = methods.iter().find(|m| m.name.as_deref() == Some("capture")).unwrap();
    assert_eq!(capture.return_type.as_deref(), Some("std::uint32_t"));
    assert!(start.is_public);
    assert!(capture.is_public);

    let children = result
        .edges
        .iter()
        .filter(|e| e.edge_type == "child" && e.from_index == class_idx)
        .count();
    assert_eq!(children, methods.len());
}

#[test]
fn summarize_hal_header_validates_abstract_class_contract() {
    let ok = r#"#pragma once
#include <cstdint>

class CameraHAL {
public:
    virtual ~CameraHAL() = default;
    virtual bool start() = 0;
    virtual std::uint32_t capture(int timeout_ms) = 0;
};
"#;
    let summary = summarize_hal_header(ok).expect("valid abstract contract");
    assert!(summary.contains("CameraHAL"), "{}", summary);
    assert!(summary.contains("start"), "{}", summary);
    assert!(summary.contains("capture"), "{}", summary);
    assert!(summary.contains("= 0"), "{}", summary);

    let bad = r#"#pragma once
class NotAbstract {
public:
    void do_thing();
};
"#;
    assert!(summarize_hal_header(bad).is_err());
}

#[test]
fn hal_contract_summary_produces_placeholder_sources() {
    let ok = r#"#pragma once
#include <cstdint>

class CameraHAL {
public:
    virtual ~CameraHAL() = default;
    virtual bool start() = 0;
    virtual std::uint32_t capture(int timeout_ms) = 0;
};
"#;
    let summary = summarize_hal_header(ok).unwrap();
    let classes = parse_hal_contract_summary(&summary);
    assert_eq!(classes.len(), 1, "{:?}", classes);
    let (class_name, methods) = &classes[0];
    assert_eq!(class_name, "CameraHAL");
    let names: Vec<&str> = methods.iter().map(|m| m.name.as_str()).collect();
    assert!(names.contains(&"start"), "{:?}", names);
    assert!(names.contains(&"capture"), "{:?}", names);

    let src = generate_hal_placeholder_source("camera_hal", class_name, methods, "rpi5");
    assert!(src.contains("#include \"camera_hal.hpp\""));
    assert!(src.contains("bool CameraHAL::start()"), "{}", src);
    assert!(src.contains("std::uint32_t CameraHAL::capture(int timeout_ms)"), "{}", src);
    assert!(src.contains("/* TODO: implement for rpi5 */"), "{}", src);
    assert!(src.contains("return {};"), "{}", src);
}

#[test]
fn hal_meson_var_section_lists_one_stub_per_interface() {
    let section = hal_meson_var_section(
        "rock3c",
        &vec!["camera_hal".to_string(), "h264_encoder".to_string()],
    );
    assert!(section.contains("hal_impl_rock3c_sources = files("), "{}", section);
    assert!(section.contains("'implementations/rock3c/camera_hal_stub.cpp'"), "{}", section);
    assert!(section.contains("'implementations/rock3c/h264_encoder_stub.cpp'"), "{}", section);
    let camera = section.find("camera_hal_stub").unwrap();
    let h264 = section.find("h264_encoder_stub").unwrap();
    assert!(camera < h264, "{}", section);
}

#[test]
fn hal_impl_prompt_embeds_contract_hardware_and_gate() {
    let summary = "CameraHAL: bool start() = 0; std::uint32_t capture(int timeout_ms) = 0";
    let prompt = generate_hal_impl_prompt(
        summary,
        "camera_hal",
        "CameraHAL",
        "rpi5",
        "Raspberry Pi 5",
        "BCM2712 (Cortex-A76), RK 6.1 kernel, libcamera stack",
        "libcamera, V4L2, media-ctl, Raspberry Pi Camera Module 3 (IMX708)",
        "ai-trap-rpi5",
    );
    assert!(prompt.contains(summary));
    assert!(prompt.contains("Raspberry Pi 5 (rpi5)"), "{}", prompt);
    assert!(prompt.contains("libcamera") && prompt.contains("IMX708"), "{}", prompt);
    assert!(prompt.contains("meson compile -C build-rpi5 ai-trap-rpi5"), "{}", prompt);
    assert!(prompt.contains("camera_hal.hpp"), "{}", prompt);
}

#[test]
fn hal_contract_diff_detects_signature_changes() {
    let old_summary = "CameraHAL: bool start() = 0; std::uint32_t capture(int timeout_ms) = 0";
    let new_summary = "CameraHAL: bool start() = 0; bool teardown() = 0; \
                       std::uint32_t capture(int timeout_ms, int mode) = 0";
    let change = diff_hal_contracts(old_summary, new_summary);
    assert_eq!(change.added, vec!["teardown".to_string()], "{:?}", change);
    assert!(change.removed.is_empty(), "{:?}", change);
    assert!(change.changed.iter().any(|(name, _)| name == "capture"), "{:?}", change);
    assert!(!change.changed.iter().any(|(name, _)| name == "start"), "{:?}", change);

    let removed = diff_hal_contracts(
        "CameraHAL: bool start() = 0; bool teardown() = 0",
        "CameraHAL: bool start() = 0",
    );
    assert_eq!(removed.removed, vec!["teardown".to_string()], "{:?}", removed);
}

#[test]
fn extract_cpp_method_definitions_parses_out_of_class_bodies() {
    let src = r#"// bool CameraHalRpi5::init(const PipelineConfig& cfg) { return false; }
namespace ct {
bool CameraHalRpi5::init(const PipelineConfig& cfg) {
    return true;
}
void CameraHalRpi5::release_frames() { }
CameraHalRpi5::CameraHalRpi5() : impl_(nullptr) {}
CameraHalRpi5::~CameraHalRpi5() { shutdown(); }
std::vector<uint8_t> Rpi5JpegEncoder::encode_crop(int src_dma_fd,
                                                  uint32_t src_w,
                                                  int quality = 85) {
    return {};
}
}
"#;
    let methods = extract_cpp_method_definitions_ts(src);
    let names: Vec<&str> = methods.iter().map(|m| m.name.as_str()).collect();
    assert!(names.contains(&"init"), "{:?}", names);
    assert!(names.contains(&"release_frames"), "{:?}", names);
    assert!(names.contains(&"encode_crop"), "{:?}", names);
    assert!(!names.contains(&"CameraHalRpi5"), "{:?}", names);
    assert!(!names.contains(&"~CameraHalRpi5"), "{:?}", names);
    assert_eq!(names.iter().filter(|n| **n == "init").count(), 1, "{:?}", names);

    let encode = methods.iter().find(|m| m.name == "encode_crop").unwrap();
    assert_eq!(encode.return_type, "std::vector<uint8_t>");
    assert_eq!(normalize_params(&encode.params), "int, uint32_t, int");
}

#[test]
fn hal_interface_coverage_reports_missing_and_drifted_functions() {
    let contract = "ICameraHAL: bool init(const PipelineConfig& cfg) = 0; \
                    bool acquire_frames(FrameBuffer& full, FrameBuffer& medium, FrameBuffer& lores) = 0; \
                    void release_frames() = 0; \
                    void shutdown() = 0";
    let mut dir = tree(&[(
        "impls/camera_hal_rpi5.cpp",
        r#"namespace ct {
bool CameraHalRpi5::init(const PipelineConfig& cfg) { return true; }
bool CameraHalRpi5::acquire_frames(FrameBuffer& full, FrameBuffer& medium,
                                   FrameBuffer& lores) { return true; }
void CameraHalRpi5::release_frames() { }
void CameraHalRpi5::shutdown() { }
}
"#,
    )]);
    let classes = parse_hal_contract_summary(contract);
    let mut contract_methods: Vec<HalContractMethod> = Vec::new();
    for (_, m) in &classes {
        contract_methods.extend(m.iter().cloned());
    }
    let complete = hal_interface_coverage(&contract_methods, "camera_hal", &dir, "impls");
    assert!(complete.implemented, "{:?}", complete);
    assert!(complete.missing.is_empty(), "{:?}", complete.missing);

    dir.entries.insert(
        1,
        Entry {
            path: "impls/camera_hal_imx219.cpp".to_string(),
            is_dir: false,
            content: Some(
                r#"namespace ct {
bool CameraHALR3::init(const PipelineConfig& cfg) { return true; }
bool CameraHALR3::acquire_frames(FrameBuffer& full, FrameBuffer& medium) { return true; }
void CameraHALR3::release_frames(int extra) { }
void CameraHALR3::shutdown() { }
}
"#
                .to_string(),
            ),
        },
    );
    let drifted = hal_interface_coverage(&contract_methods, "camera_hal", &dir, "impls");
    assert!(!drifted.implemented, "{:?}", drifted);
    assert!(!drifted.missing.contains(&"acquire_frames".to_string()), "{:?}", drifted);
    assert!(drifted.drifted.iter().any(|d| d.contains("acquire_frames")), "{:?}", drifted.drifted);
    assert!(drifted.drifted.iter().any(|d| d.contains("release_frames")), "{:?}", drifted.drifted);

    let missing = hal_interface_coverage(&contract_methods, "h264_encoder", &dir, "impls");
    assert!(!missing.implemented);
    assert_eq!(missing.missing.len(), 4, "{:?}", missing);
}

#[test]
fn hal_docs_and_graph_query() {
    let source = r#"namespace hal {
/// @brief   Hardware camera capture contract.
/// @id      hal.camera
/// The pipeline serializes calls per module instance.
struct ICameraHAL : hal::HalModule {
    const char* id() const override { return "hal.camera"; }

    /// @brief Acquire one frame.
    /// @param timeout_ms Wait in ms.
    /// @return true on success.
    virtual bool capture(int timeout_ms) = 0;
};
/// @brief Shared frame buffer descriptor.
struct FrameBuffer { uint32_t width = 0; };
}"#;
    let docs = parse_hal_docs(source);
    let c = docs.iter().find(|d| d.target == "ICameraHAL").expect("contract doc attached");
    assert_eq!(c.kind, "contract");
    assert!(c.tags.iter().any(|t| t.name == "@id" && t.value == "hal.camera"), "{:?}", c.tags);
    assert!(c.tags.iter().any(|t| t.name == "@brief"));
    assert!(!c.prose.is_empty());
    let cap = docs.iter().find(|d| d.target == "capture").expect("method doc attached");
    assert_eq!(cap.kind, "method");
    assert!(docs.iter().any(|d| d.target == "FrameBuffer"), "{:?}", docs);

    let root = tree(&[
        ("hal/api/camera_hal.hpp", source),
        (
            "hal/api/h264_encoder.hpp",
            "namespace hal { struct H264Encoder : hal::HalModule { virtual int init(int w) = 0; }; }\n",
        ),
        ("hal/types/frame_buffer.hpp", "namespace hal { struct FrameBuffer {}; }\n"),
        (
            "hal/implementations/rpi5/camera_hal_imx219.cpp",
            "bool Rpi5Cam::capture(int timeout_ms) { return true; }\n",
        ),
    ]);
    let graph = hal_graph(&root);
    assert!(graph.nodes.iter().any(|n| n.kind == "HalModule"), "{:?}", graph.nodes);
    assert!(
        graph.nodes.iter().any(|n| n.kind == "HalContract" && n.name == "ICameraHAL"),
        "{:?}",
        graph.nodes
    );
    assert!(
        graph.nodes.iter().any(|n| n.kind == "HalType" && n.name == "frame_buffer"),
        "{:?}",
        graph.nodes
    );
    assert!(
        graph.nodes.iter().any(|n| n.kind == "HalImpl" && n.platform == "rpi5"),
        "{:?}",
        graph.nodes
    );
    assert!(graph.edges.iter().any(|e| e.kind == "derives"));
    assert!(graph.edges.iter().any(|e| e.kind == "missing"), "{:?}", graph.edges);

    let (nodes, _edges) = hal_query(&graph, "rpi5");
    assert!(!nodes.is_empty());
    let (nodes2, _) = hal_query(&graph, "HalType");
    assert!(nodes2.iter().any(|n| n.name == "frame_buffer"), "{:?}", nodes2);
}

#[test]
fn hal_report_and_verify() {
    let mut root = tree(&[
        (
            "hal/api/camera_hal.hpp",
            r#"namespace hal {
// Camera capture contract.
// Acquires frames from the sensor.
/// @id hal.camera
struct ICameraHAL : hal::HalModule {
    const char* id() const override { return "hal.camera"; }

    /// @brief Initialise the camera.
    virtual bool init() = 0;
};
}"#,
        ),
        (
            "hal/api/frame_buffer.hpp",
            "namespace hal {\n/// @brief Shared frame buffer.\nstruct FrameBuffer { int w = 0; };\n}",
        ),
        (
            "hal/implementations/rpi5/camera_hal_rpi5.cpp",
            "bool Rpi5Cam::init() { return true; }\n",
        ),
    ]);

    let report = hal_report(&root);
    assert_eq!(report.contracts.len(), 1, "{:#?}", report);
    let cam = report.contracts.iter().find(|c| c.stem == "camera_hal").expect("camera");
    assert!(!cam.prose.is_empty(), "{:#?}", cam);
    assert!(cam.tags.iter().any(|t| t.name == "@id"), "{:#?}", cam);
    let fb = report.types.iter().find(|t| t.name == "FrameBuffer").expect("FrameBuffer");
    assert!(!fb.brief.is_empty(), "{:#?}", fb);
    let c = &report.contracts[0];
    assert_eq!(c.id, "hal.camera");
    assert_eq!(c.class_name, "ICameraHAL");
    assert_eq!(c.methods.len(), 1);
    assert_eq!(c.methods[0].name, "init");
    assert!(c.platforms.iter().any(|p| p.platform == "rpi5" && p.implemented), "{:#?}", c);
    assert!(report.types.iter().any(|t| t.name == "FrameBuffer"), "{:#?}", report);

    let issues = hal_verify(&root);
    assert!(issues.is_empty(), "{:#?}", issues);

    put(
        &mut root,
        "hal/api/camera_hal.hpp",
        r#"namespace hal {
struct ICameraHAL : hal::HalModule {
    virtual bool init() = 0;
};
}"#,
    );
    let issues = hal_verify(&root);
    assert!(issues.iter().any(|i| i.title == "contract missing @id doc"), "{:#?}", issues);

    put(
        &mut root,
        "hal/implementations/rpi5/audio_hal_rpi5.cpp",
        "bool Rpi5Audio::init() { return true; }\n",
    );
    let issues = hal_verify(&root);
    assert!(issues.iter().any(|i| i.title == "orphan HAL implementation"), "{:#?}", issues);
}

#[test]
fn cpp_syntax_check_and_fix_prompt() {
    let ok_content = "namespace hal { struct A : HalModule { virtual void f() = 0; }; }";
    let r = cpp_syntax_check(ok_content);
    assert!(r.ok, "{:?}", r);

    let bad = "namespace hal { struct A { virtual void f() = 0; ";
    let r = cpp_syntax_check(bad);
    assert!(!r.ok);
    assert!(!r.errors.is_empty());

    let issues = vec![HalDocLintIssue {
        severity: "error".into(),
        title: "method missing @brief".into(),
        path: "hal/api/camera_hal.hpp".into(),
        symbol: "ICameraHAL::start".into(),
        message: "no @brief".into(),
        fix_prompt: "write one".into(),
    }];
    let prompt = hal_doc_fix_prompt_all("hal/api/camera_hal.hpp", &issues);
    assert!(prompt.contains("hal/api/camera_hal.hpp"));
    assert!(prompt.contains("ICameraHAL::start"));
    assert!(prompt.contains("method missing @brief"));
}

#[test]
fn hal_doc_lint_catches_missing_docs() {
    let root = tree(&[(
        "hal/api/camera_hal.hpp",
        r#"namespace hal {
/// @brief Camera capture contract.
/// @id hal.camera
struct ICameraHAL : hal::HalModule {
    const char* id() const override { return "hal.camera"; }
    /// @brief Stub prose (no params, has return).
    virtual bool start(const char* device, int width) = 0;
};
}"#,
    )]);
    let report = hal_doc_lint(&root);
    let file = report.files.first().expect("one file");
    let titles: Vec<&str> = file.issues.iter().map(|i| i.title.as_str()).collect();
    assert!(titles.iter().any(|t| *t == "method missing @param"), "{:?}", titles);
    assert!(titles.iter().any(|t| *t == "method missing @return"), "{:?}", titles);
    assert!(file.issues.iter().all(|i| !i.fix_prompt.is_empty()));
}

#[test]
fn classify_hal_header_hal_module_rule() {
    let module = r#"namespace hal {
class HalModule { public: virtual ~HalModule() = default; virtual const char* id() const = 0; };
struct ICameraHAL : hal::HalModule {
    const char* id() const override { return "hal.camera"; }
    virtual bool init() = 0;
};
}"#;
    assert_eq!(classify_hal_header(&Some(module.to_string())), HalHeaderKind::Contract);

    let legacy = "class LegacyCam { public: virtual bool start() = 0; };";
    assert_eq!(classify_hal_header(&Some(legacy.to_string())), HalHeaderKind::Contract);

    let data = "namespace hal { struct FrameBuffer { int w = 0; int h = 0; }; }";
    assert_eq!(classify_hal_header(&Some(data.to_string())), HalHeaderKind::DataOnly);
}

#[test]
fn hal_stub_sentinel_marks_placeholder_as_unimplemented() {
    let methods = vec![
        HalContractMethod { name: "start".into(), return_type: "bool".into(), params: "".into() },
        HalContractMethod {
            name: "capture".into(),
            return_type: "std::uint32_t".into(),
            params: "int timeout_ms".into(),
        },
    ];
    let src = generate_hal_placeholder_source("camera_hal", "CameraHAL", &methods, "a7s");
    assert!(src.contains("SPIRE-HAL-STUB") && src.contains("#pragma message("), "{}", src);
    assert!(is_hal_stub(&src));
    let dir = tree(&[("impls/camera_hal_stub.cpp", &src)]);

    let cov = hal_interface_coverage(&methods, "camera_hal", &dir, "impls");
    assert!(!cov.implemented, "{:?}", cov);
    assert!(cov.has_impl);
    assert_eq!(cov.missing.len(), 2, "{:?}", cov);
    assert_eq!(cov.missing_sigs.len(), 2, "{:?}", cov);
    assert!(cov.drifted.is_empty(), "{:?}", cov);

    let dir = tree(&[(
        "impls/camera_hal_a7s.cpp",
        "bool CameraHalA7s::start() { return true; }\nstd::uint32_t CameraHalA7s::capture(int timeout_ms) { return 0; }\n",
    )]);
    let real = hal_interface_coverage(&methods, "camera_hal", &dir, "impls");
    assert!(real.implemented, "{:?}", real);
}

#[test]
fn hal_platform_coverage_map_flattens_per_platform_gaps() {
    let root = tree(&[
        (
            "hal/api/camera_hal.hpp",
            "class ICameraHAL {\npublic:\n    virtual bool init() = 0;\n    virtual void shutdown() = 0;\n};\n",
        ),
        (
            "hal/api/h264_encoder.hpp",
            "class H264Encoder {\npublic:\n    virtual ~H264Encoder() = default;\n    virtual int init(int width, int height, int qp = 26) = 0;\n};\n",
        ),
        (
            "hal/implementations/rpi5/camera_hal_rpi5.cpp",
            "bool Rpi5Cam::init() { return true; }\nvoid Rpi5Cam::shutdown() {}\n",
        ),
        (
            "hal/implementations/rpi5/h264_encoder_rpi5.cpp",
            "int Rpi5H264::init(int width, int height, int qp) { return 0; }\n",
        ),
        (
            "hal/implementations/rock3c/camera_hal_ov5647.cpp",
            "bool RockCam::init() { return true; }\nvoid RockCam::shutdown() {}\n",
        ),
    ]);
    let coverage = hal_platform_coverage_map(&root);
    let (by_platform, by_interface) = flatten_hal_coverage(&coverage);
    assert!(!by_platform.iter().any(|(p, _)| p == "rpi5"), "{:?}", by_platform);
    assert_eq!(
        by_platform.iter().find(|(p, _)| p == "rock3c").map(|(_, v)| v.clone()),
        Some(vec!["h264_encoder".to_string()]),
        "{:?}",
        by_platform
    );
    assert_eq!(
        by_interface.iter().find(|(i, _)| i == "h264_encoder").map(|(_, v)| v.clone()),
        Some(vec!["rock3c".to_string()]),
        "{:?}",
        by_interface
    );
}

#[test]
fn module_pair_names_agree_with_fill_scaffolding() {
    assert_eq!(hal_impl_class_name("camera_hal", "rock3c"), "CameraHalRock3c");
    assert_eq!(hal_impl_class_name("video_scaler", "rpi5"), "VideoScalerRpi5");
    assert_eq!(hal_impl_class_name("mpp_h264_encoder", "imx219"), "MppH264EncoderImx219");

    let (class, cpp, hpp) = resolve_hal_impl_names("camera_hal", "rock3c", &vec![]);
    assert_eq!(class, "CameraHalRock3c");
    assert_eq!(cpp, "camera_hal_rock3c.cpp");
    assert_eq!(hpp, "camera_hal_rock3c.hpp");
    let (class2, cpp2, _) =
        resolve_hal_impl_names("camera_hal", "rock3c", &vec!["camera_hal_rock3c.cpp".to_string()]);
    assert_eq!(class2, "CameraHalRock3c2");
    assert_eq!(cpp2, "camera_hal_rock3c_2.cpp");
}

#[test]
fn semantic_impl_names_reuse_stub_pair_but_never_real_impl() {
    let (class, cpp, hpp) = resolve_semantic_hal_impl_names("classifier_hal", "rpi5", &vec![]);
    assert_eq!(class, "ClassifierHalRpi5");
    assert_eq!(cpp, "classifier_hal_rpi5.cpp");
    assert_eq!(hpp, "classifier_hal_rpi5.hpp");

    let stub = format!("// {}\n", SPIRE_HAL_STUB_SENTINEL);
    let mut files = vec![
        ("classifier_hal_rpi5.cpp".to_string(), Some(stub.clone())),
        ("classifier_hal_rpi5.hpp".to_string(), Some(stub)),
    ];
    let (class2, cpp2, _) = resolve_semantic_hal_impl_names("classifier_hal", "rpi5", &files);
    assert_eq!(class2, "ClassifierHalRpi5");
    assert_eq!(cpp2, "classifier_hal_rpi5.cpp");

    files[0].1 = Some(
        "bool ClassifierHalRpi5::init(const std::string&, float) { return true; }\n".to_string(),
    );
    let (class3, cpp3, _) = resolve_semantic_hal_impl_names("classifier_hal", "rpi5", &files);
    assert_eq!(class3, "ClassifierHalRpi52");
    assert_eq!(cpp3, "classifier_hal_rpi5_2.cpp");
}

#[test]
fn clean_module_header_has_no_stub_sentinel() {
    let methods = vec![
        HalContractMethod { name: "start".into(), return_type: "bool".into(), params: String::new() },
        HalContractMethod {
            name: "capture".into(),
            return_type: "std::uint32_t".into(),
            params: "int timeout_ms".into(),
        },
    ];
    let h = generate_hal_module_header_clean(
        "camera_hal",
        "CameraHalRock3c",
        "CameraHAL",
        &methods,
        "rock3c",
    );
    assert!(!h.contains(SPIRE_HAL_STUB_SENTINEL), "{}", h);
    assert!(!h.contains("#pragma message"), "{}", h);
    assert!(h.contains("class CameraHalRock3c : public CameraHAL {"), "{}", h);
    assert!(h.contains("bool start() override;"), "{}", h);
    assert!(h.contains("std::uint32_t capture(int timeout_ms) override;"), "{}", h);
    assert!(h.contains("struct Impl;"), "{}", h);
    assert!(h.contains("#include \"hal/api/camera_hal.hpp\""), "{}", h);
}

#[test]
fn meson_upsert_replaces_stub_entries_and_appends_when_absent() {
    let meson = "hal_impl_rock3c_sources = files(\n        'implementations/rock3c/camera_hal_stub.cpp',\n        'implementations/rock3c/h264_encoder_stub.cpp',\n    )\n";
    let updated = hal_meson_upsert_sources(
        meson,
        "rock3c",
        &vec!["camera_hal".to_string()],
        &vec!["camera_hal_rock3c.cpp".to_string()],
    );
    assert!(updated.contains("'implementations/rock3c/camera_hal_rock3c.cpp'"), "{}", updated);
    assert!(!updated.contains("camera_hal_stub.cpp"), "{}", updated);
    assert!(updated.contains("h264_encoder_stub.cpp"), "{}", updated);
    let updated2 = hal_meson_upsert_sources(
        &updated,
        "rock3c",
        &vec!["camera_hal".to_string()],
        &vec!["camera_hal_rock3c.cpp".to_string()],
    );
    assert_eq!(updated, updated2);
    let fresh = hal_meson_upsert_sources(
        "project('x', 'cpp')\n",
        "rpi5",
        &vec!["camera_hal".to_string()],
        &vec!["camera_hal_rpi5.cpp".to_string()],
    );
    assert!(fresh.contains("hal_impl_rpi5_sources = files("), "{}", fresh);
    assert!(fresh.contains("'implementations/rpi5/camera_hal_rpi5.cpp'"), "{}", fresh);
}

#[test]
fn semantic_impl_prompt_targets_module_pair() {
    let methods = vec![HalContractMethod {
        name: "start".into(),
        return_type: "bool".into(),
        params: String::new(),
    }];
    let header = generate_hal_module_header_clean(
        "camera_hal",
        "CameraHalRpi5",
        "CameraHAL",
        &methods,
        "rpi5",
    );
    let prompt = generate_hal_impl_prompt_pair(
        "CameraHAL: bool start() = 0",
        "camera_hal",
        "CameraHalRpi5",
        "CameraHAL",
        "rpi5",
        "Raspberry Pi 5",
        "cpu_family: aarch64\ncpu: armv8",
        "libcamera / V4L2",
        "camera_hal-rpi5",
        &header,
        "@brief Starts the camera.",
        "(none)",
        "",
    );
    assert!(prompt.contains("CameraHalRpi5 : public CameraHAL"), "{}", prompt);
    assert!(prompt.contains("CameraHalRpi5::Impl"), "{}", prompt);
    assert!(prompt.contains("class CameraHalRpi5 : public CameraHAL"), "{}", prompt);
    assert!(prompt.contains("meson compile -C build-rpi5 camera_hal-rpi5"), "{}", prompt);
    assert!(prompt.contains("@brief Starts the camera."), "{}", prompt);
    assert!(prompt.contains("Do NOT emit `SPIRE-HAL-STUB`"), "{}", prompt);
}

#[test]
fn strip_code_fences_removes_cpp_block() {
    assert_eq!(strip_code_fences("```cpp\nint main() {}\n```"), "int main() {}");
    assert_eq!(strip_code_fences("```\nint main() {}\n```"), "int main() {}");
    assert_eq!(strip_code_fences("int main() {}"), "int main() {}");
}
