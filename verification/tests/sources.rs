//! Source files: places, patterns and syntax trees.

use spire_build::cpp::{
    classify_hal_header, cpp_syntax_check, derives_hal_module, extract_contract_methods_cpp,
    extract_cpp_base_classes, extract_cpp_method_definitions_ts, HalHeaderKind,
};
use spire_build::meson_module::MesonBuildModule;
use spire_build::rust_contract::{
    extract_impl_methods_rust, extract_inherent_methods_rust, placeholder_methods_rust,
    required_trait_methods_rust, rust_syntax_check,
};
use spire_build::source::{
    add_declarations, add_imports, extract_cpp_methods, find_class_methods, find_declaration, find_import,
    find_method, match_closing_brace, offset_to_line_col, parse_cpp_source_file_std,
    parse_source_file_basic, parse_source_file_std,
};

#[test]
fn an_offset_has_a_line_and_a_column() {
    assert_eq!(offset_to_line_col("ab\ncd", 0), (1, 0));
    assert_eq!(offset_to_line_col("ab\ncd", 3), (2, 0));
    assert_eq!(offset_to_line_col("ab\ncd", 4), (2, 1));
    assert_eq!(offset_to_line_col("é\nx", 3), (2, 0));
    assert_eq!(offset_to_line_col("ab", 99), (1, 2));
}

#[test]
fn declarations_are_found_by_pattern() {
    let text = "import os\nuse a::b\npub fn run(x: u8) {}\nasync go() {}\nclass Box {}\n";
    let r = parse_source_file_basic("a.x", "X", text, "h");
    let found: Vec<(&str, Option<&str>, u32)> =
        r.nodes.iter().map(|n| (n.node_type.as_str(), n.name.as_deref(), n.start_line)).collect();
    assert_eq!(
        found,
        vec![
            ("import", Some("os"), 1),
            ("import", Some("a::b"), 2),
            ("function", Some("run"), 3),
            ("function", Some("go"), 4),
            ("class", Some("Box"), 5),
        ]
    );
    assert!(r.nodes[2].is_public && !r.nodes[3].is_public);
    assert!(r.nodes[3].is_async);
    assert_eq!(r.nodes[2].signature, Some("pub fn run(".to_string()));
    assert_eq!(r.nodes[2].end_col, 11);
    assert_eq!(r.edges.len(), 2);
    assert_eq!(r.edges[1].field, Some("use".to_string()));
    assert_eq!((r.edges[1].from_index, r.edges[1].to_index), (1, 1));
    assert_eq!(r.content_hash, "h");
    assert!(!r.has_errors);
}

#[test]
fn a_file_without_declarations_is_faulty() {
    let r = parse_source_file_std("a.go", "Go", &Ok("// nothing\n".to_string())).unwrap();
    assert!(r.has_errors);
    assert_eq!(r.content_hash.len(), 64);
    let e = parse_source_file_std("a.go", "Go", &Err("gone".to_string())).unwrap_err();
    assert_eq!(e, "Failed to read a.go: gone");
}

#[test]
fn braces_are_matched() {
    let chars: Vec<char> = "a{b{c}d}e".chars().collect();
    assert_eq!(match_closing_brace(&chars, 1), Some(8));
    assert_eq!(match_closing_brace(&chars, 3), Some(6));
    assert_eq!(match_closing_brace(&chars, 0), None);
    assert_eq!(match_closing_brace(&"{{}".chars().collect(), 0), None);
}

const HEADER: &str = "#pragma once\nclass CameraHAL {\npublic:\n    virtual ~CameraHAL();\n    virtual bool start(int rate) = 0;\nprivate:\n    int count() const ;\n};\nstruct Frame {\n    int width();\n};\n";

#[test]
fn member_functions_belong_to_their_class() {
    let found = extract_cpp_methods(HEADER);
    let rows: Vec<(&str, &str, bool)> = found
        .iter()
        .map(|(c, n)| (c.as_str(), n.name.as_deref().unwrap_or(""), n.is_public))
        .collect();
    assert_eq!(rows[0].1, "~CameraHAL");
    assert_eq!(found[0].1.return_type, None);
    assert!(rows.contains(&("CameraHAL", "start", true)), "{rows:?}");
    assert!(rows.contains(&("CameraHAL", "count", false)), "{rows:?}");
    assert!(rows.contains(&("Frame", "width", true)), "{rows:?}");
    let start = found.iter().find(|(_, n)| n.name.as_deref() == Some("start")).unwrap();
    assert_eq!(start.1.signature, Some("virtual bool start(int rate) = 0;".to_string()));
    assert_eq!(start.1.return_type, Some("bool".to_string()));
    assert_eq!(start.1.depth, 1);
}

#[test]
fn a_header_is_parsed_with_children() {
    let r = parse_cpp_source_file_std("camera_hal.hpp", &Ok(HEADER.to_string())).unwrap();
    assert_eq!(r.language, "C/C++");
    let class = r.nodes.iter().position(|n| n.name.as_deref() == Some("CameraHAL")).unwrap();
    let start = r.nodes.iter().position(|n| n.name.as_deref() == Some("start")).unwrap();
    assert!(r
        .edges
        .iter()
        .any(|e| e.edge_type == "child" && e.from_index == class && e.to_index == start));
    assert!(parse_cpp_source_file_std("x.hpp", &Err("gone".to_string())).is_err());
}

#[test]
fn a_header_gets_the_finer_parser() {
    let module = MesonBuildModule::new();
    let header = module.parse_source_file("a.hpp", &Ok(HEADER.to_string())).unwrap();
    let source = module.parse_source_file("a.cpp", &Ok(HEADER.to_string())).unwrap();
    assert!(header.nodes.iter().any(|n| n.node_type == "method"));
    assert!(source.nodes.iter().all(|n| n.node_type != "method"));
}

#[test]
fn contracts_are_told_by_their_syntax() {
    let classes = extract_contract_methods_cpp(HEADER);
    assert_eq!(classes.len(), 1);
    assert_eq!(classes[0].0, "CameraHAL");
    assert_eq!(classes[0].1.len(), 1);
    assert_eq!(classes[0].1[0].name, "start");
    assert_eq!(classes[0].1[0].return_type, "bool");
    let derived = "class A : public hal::HalModule, private B {};\n";
    assert_eq!(
        extract_cpp_base_classes(derived),
        vec![("A".to_string(), vec!["HalModule".to_string(), "B".to_string()])]
    );
    assert!(derives_hal_module(derived) && !derives_hal_module(HEADER));
}

#[test]
fn headers_are_of_four_kinds() {
    let kind = |t: &str| classify_hal_header(&Some(t.to_string()));
    assert_eq!(kind(HEADER), HalHeaderKind::Contract);
    assert_eq!(kind("class A : public HalModule { public: void f(); };\n"), HalHeaderKind::Contract);
    assert_eq!(kind("struct P { int x; };\n"), HalHeaderKind::DataOnly);
    assert_eq!(kind("int f();\n"), HalHeaderKind::NoClass);
    assert_eq!(classify_hal_header(&None), HalHeaderKind::ParseError);
}

#[test]
fn definitions_outside_a_class_are_found() {
    let text = "#include \"camera_hal.hpp\"\nbool CameraHAL::start(int rate) { return true; }\n";
    let found = extract_cpp_method_definitions_ts(text);
    assert_eq!(found.len(), 1);
    assert_eq!(found[0].name, "start");
}

#[test]
fn syntax_is_checked() {
    let good = cpp_syntax_check("int main() { return 0; }\n");
    assert!(good.ok && good.errors.is_empty());
    let bad = cpp_syntax_check("int x;\n  @@ int f( {\n");
    assert!(!bad.ok && !bad.errors.is_empty());
    assert_eq!((bad.errors[0].line, bad.errors[0].col), (2, 3), "{bad:?}");
    assert_eq!(bad.errors[0].context, "@@ int f( {");
    let good = rust_syntax_check("fn f() {}\n");
    assert!(good.ok && good.errors.is_empty());
    let bad = rust_syntax_check("struct S;\nfn f( -> @ {}\n");
    assert!(!bad.ok && !bad.errors.is_empty());
    assert_eq!(bad.errors[0].line, 2, "{bad:?}");
}

const CONTRACT: &str = "pub trait Led { fn on(&mut self); fn off(&mut self); fn blink(&mut self) { self.on(); } }\n";
const BOARD: &str = "pub struct Pin;\nimpl Led for Pin { fn on(&mut self) { todo!() } }\nimpl Pin { pub fn new() -> Self { Pin } fn raw(&self) -> u8 { unimplemented!() } }\n";

#[test]
fn a_trait_requires_what_it_does_not_provide() {
    let required = required_trait_methods_rust(CONTRACT);
    assert_eq!(required, vec![("Led".to_string(), vec!["on".to_string(), "off".to_string()])]);
    let provided = extract_impl_methods_rust(BOARD);
    assert_eq!(provided, vec![("Led".to_string(), vec!["on".to_string()])]);
    let own = extract_inherent_methods_rust(BOARD);
    assert_eq!(own, vec![("Pin".to_string(), vec!["new".to_string(), "raw".to_string()])]);
    assert_eq!(placeholder_methods_rust(BOARD), vec!["on".to_string(), "raw".to_string()]);
}

#[test]
fn given_matches_become_nodes() {
    let chars: Vec<char> = "import os\npub fn go()\n".chars().collect();
    let import = vec![Some((0, 9)), Some((7, 9))];
    let node = find_import(&chars, &import);
    assert_eq!((node.node_type.as_str(), node.name.as_deref()), ("import", Some("os")));
    assert_eq!((node.start_line, node.start_col, node.end_col), (1, 0, 9));
    let declaration = vec![Some((10, 21)), Some((17, 19))];
    let node = find_declaration(&chars, "function", &declaration);
    assert_eq!((node.name.as_deref(), node.start_line, node.is_public), (Some("go"), 2, true));
    assert_eq!(node.signature.as_deref(), Some("pub fn go()"));
    let mut nodes = Vec::new();
    let mut edges = Vec::new();
    add_imports(&chars, &vec![import.clone(), vec![None]], "rust", &mut nodes, &mut edges);
    assert_eq!((nodes.len(), edges.len(), edges[1].from_index, edges[1].to_index), (2, 2, 1, 1));
    assert_eq!(nodes[1].name, None);
    add_declarations(&chars, "function", &vec![declaration, import], 2, &mut nodes);
    assert_eq!(nodes.len(), 3);
    assert_eq!(nodes[2].name.as_deref(), Some("go"));
}

#[test]
fn given_matches_become_methods() {
    let text = "struct A {\n  int f(int x);\n};\n";
    let chars: Vec<char> = text.chars().collect();
    let body: Vec<char> = text[10..27].chars().collect();
    let m = vec![Some((3, 16)), None, Some((3, 6)), Some((7, 8)), Some((9, 14)), None];
    let node = find_method(&chars, &body, 10, true, &m).unwrap();
    assert_eq!((node.name.as_deref(), node.return_type.as_deref()), (Some("f"), Some("int")));
    assert_eq!((node.start_line, node.start_col, node.depth, node.is_public), (2, 2, 1, true));
    assert_eq!(node.text, "int f(int x);");
    assert!(find_method(&chars, &body, 10, true, &vec![Some((3, 16))]).is_none());
    let found = find_class_methods(&chars, &vec![Some((0, 10)), Some((7, 8))]);
    assert_eq!(found.len(), 1);
    assert_eq!((found[0].0.as_str(), found[0].1.name.as_deref()), ("A", Some("f")));
    assert!(find_class_methods(&chars, &vec![None]).is_empty());
}
