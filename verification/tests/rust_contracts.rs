//! Contracts written as Rust traits, and what implementations owe them.

use spire_build::coverage::HalInterfaceCoverage;
use spire_build::project::{Entry, ProjectTree};
use spire_build::rust_contract::{
    missing_trait_methods_rust, placeholder_impls_rust, rust_platform_coverage_map,
};

/// A project with these files, and the directories that lead to them.
fn tree(files: &[(&str, &str)]) -> ProjectTree {
    let mut t = ProjectTree { root: "/p".to_string(), entries: Vec::new() };
    for (path, content) in files {
        put(&mut t, path, content);
    }
    t
}

/// Adds the directory, and those that lead to it.
fn put_dir(t: &mut ProjectTree, path: &str) {
    let mut dir = String::new();
    for part in path.split('/') {
        if !dir.is_empty() {
            dir.push('/');
        }
        dir.push_str(part);
        if !t.entries.iter().any(|e| e.path == dir) {
            t.entries.push(Entry { path: dir.clone(), is_dir: true, content: None });
        }
    }
}

/// Writes the file, with the directories that lead to it.
fn put(t: &mut ProjectTree, path: &str, content: &str) {
    if let Some(i) = path.rfind('/') {
        put_dir(t, &path[..i]);
    }
    t.entries.retain(|e| e.path != path);
    t.entries.push(Entry {
        path: path.to_string(),
        is_dir: false,
        content: Some(content.to_string()),
    });
}

/// The coverage of an interface on a platform.
fn row<'a>(
    map: &'a Vec<(String, Vec<(String, HalInterfaceCoverage)>)>,
    platform: &str,
    interface: &str,
) -> &'a HalInterfaceCoverage {
    let rows = &map.iter().find(|(p, _)| p == platform).unwrap().1;
    &rows.iter().find(|(i, _)| i == interface).unwrap().1
}

/// A contract in the shape `spire-hal` actually uses: one required method, one provided.
const CONTRACT: &str = r#"
/// A single binary output.
pub trait Led {
/// Required — every board must implement this.
fn set(&mut self, on: bool);
/// Provided — the trait satisfies this itself, so an impl owes nothing.
fn toggle(&mut self, on: bool) {
    let _ = on;
}
}
"#;

#[test]
fn a_complete_impl_is_not_drift() {
    let imp = "impl Led for GpioLed { fn set(&mut self, _on: bool) {} }";
    assert!(
        missing_trait_methods_rust(CONTRACT, imp).is_empty(),
        "a complete impl has no drift"
    );
}

#[test]
fn a_missing_method_is_drift() {
    // `set` is not implemented — the C++ path calls this a partial gap.
    let drift = missing_trait_methods_rust(CONTRACT, "impl Led for GpioLed {}");
    assert_eq!(drift.len(), 1, "{drift:?}");
    assert_eq!(drift[0].0, "Led");
    assert_eq!(drift[0].1, vec!["set".to_string()]);
}

#[test]
fn a_trait_with_no_impl_reports_every_required_method() {
    // The cascade's starting state: a contract on disk and nothing implementing it.
    let drift = missing_trait_methods_rust(CONTRACT, "// nothing yet");
    assert_eq!(drift.len(), 1, "{drift:?}");
    assert_eq!(drift[0].1, vec!["set".to_string()]);
}

#[test]
fn a_provided_method_is_never_drift() {
    // `toggle` has a default body, so omitting it is complete. Reporting it would be a
    // false positive — and one the fill path would then try to generate code for.
    let imp = "impl Led for X { fn set(&mut self, _on: bool) {} }";
    assert!(
        missing_trait_methods_rust(CONTRACT, imp).is_empty(),
        "a default method is not owed"
    );
}

#[test]
fn an_inherent_impl_does_not_satisfy_a_trait() {
    // `impl GpioLed` implements nothing but itself, so the contract is still unmet.
    let imp = "impl GpioLed { fn set(&mut self, _on: bool) {} }";
    let drift = missing_trait_methods_rust(CONTRACT, imp);
    assert_eq!(
        drift,
        vec![("Led".to_string(), vec!["set".to_string()])],
        "an inherent impl must not be mistaken for the trait"
    );
}

#[test]
fn a_qualified_trait_path_matches_the_bare_trait_name() {
    // Real code writes `impl hal::Led for ...`; it must match `trait Led`.
    let imp = "impl hal::Led for GpioLed { fn set(&mut self, _on: bool) {} }";
    assert!(missing_trait_methods_rust(CONTRACT, imp).is_empty());
}

#[test]
fn several_traits_are_measured_separately() {
    let contract = "trait A { fn a(&self); } trait B { fn b(&self); }";
    let imp = "impl B for X { fn b(&self) {} }";
    let drift = missing_trait_methods_rust(contract, imp);
    assert_eq!(drift.len(), 1, "only A is unimplemented: {drift:?}");
    assert_eq!(drift[0].0, "A");
}

/// The coverage map on a real temp project — this is the shape `hal_missing_impls`
/// renders, so it is the contract between the Rust branch and the rest of Spire.
#[test]
fn a_rust_contract_becomes_coverage_the_way_a_cpp_one_does() {
    let mut root = tree(&[]);

    put_dir(&mut root, "hal/api");
    put(&mut root, "hal/api/led.rs", "pub trait Led {\n    fn set(&mut self, on: bool);\n}\n");

    // One platform that declares the trait and implements nothing: the PARTIAL case,
    // which the fill flow adds methods to.
    let partial = "hal/implementations/esp32c6";
    put_dir(&mut root, partial);
    put(&mut root, &format!("{}/led.rs", partial), "impl Led for GpioLed {}\n");

    // And one that is complete.
    let complete = "hal/implementations/host";
    put_dir(&mut root, complete);
    put(&mut root, &format!("{}/led.rs", complete), "impl Led for FakeLed {\n    fn set(&mut self, _on: bool) {}\n}\n");

    let map = rust_platform_coverage_map(&root);

    let c6 = row(&map, "esp32c6", "led");
    assert_eq!(c6.missing, vec!["set".to_string()], "the gap must be named");
    assert!(c6.has_impl, "a file exists, so this is partial, not absent");
    assert!(!c6.implemented, "a declared-but-empty impl is not coverage");

    let host = row(&map, "host", "led");
    assert!(host.missing.is_empty(), "{:?}", host.missing);
    assert!(host.implemented, "a complete impl must count");
    assert!(host.has_impl);

    // The interface key is the file STEM, matching the C++ convention — which is exactly
    // what lets both languages land in one map.
    assert!(map.iter().any(|(p, rows)| p == "esp32c6" && rows.iter().any(|(i, _)| i == "led")));
}

/// Only the trait whose *own* impl block is a placeholder is reported as one. The C++ sentinel
/// can be per file because a file is one interface; a Rust backend file holds every trait it
/// implements, so "pending" has to be per `impl`.
#[test]
fn only_the_placeholder_trait_is_reported_as_one() {
    let src = "impl Led for GpioLed {\n    fn set(&mut self, _on: bool) {\n        unimplemented!(\"set\")\n    }\n}\n\n\
               impl DelayMs for FamilyDelay {\n    fn delay_ms(&mut self, _ms: u32) {}\n}\n";
    assert_eq!(placeholder_impls_rust(src), vec!["Led".to_string()]);
}

/// …and a backend file that has been filled in reports no placeholder at all.
#[test]
fn a_filled_impl_is_not_a_placeholder() {
    let src = "impl Led for GpioLed {\n    fn set(&mut self, on: bool) {\n        let _ = on;\n    }\n}\n";
    assert!(placeholder_impls_rust(src).is_empty());
}

/// The **embedded-HAL** layout: a contract crate (`crates/<prefix>-hal/src/hal/*.rs`) and one
/// backend crate per family (`crates/<prefix>-hal-<family>`). This is what the `embedded-hal`
/// project type scaffolds — the C++ layout the measure was written for does not exist there, so
/// without this discovery a scaffolded project would report zero coverage rows, i.e. nothing to
/// fill, exactly when every file is a stub.
#[test]
fn the_embedded_hal_layout_is_measured_by_crate_name() {
    let mut root = tree(&[]);
    put_dir(&mut root, "crates/demo-hal/src/hal");
    put(&mut root, "crates/demo-hal/src/hal/led.rs", "pub trait Led {\n    fn set(&mut self, on: bool);\n}\n");
    // `hal/mod.rs` re-exports; it declares no contract and must not become an interface.
    put(&mut root, "crates/demo-hal/src/hal/mod.rs", "pub mod led;\npub use led::Led;\n");
    // The scaffold's stub verbatim: the trait IS implemented and the method IS declared, so
    // syntax alone would call this complete.
    put_dir(&mut root, "crates/demo-hal-esp32/src");
    put(&mut root, "crates/demo-hal-esp32/src/lib.rs", "impl Led for GpioLed {\n    fn set(&mut self, _on: bool) {\n        unimplemented!(\"GpioLed::set\")\n    }\n}\n");
    // The shared executor is a crate of the same prefix and must not become a platform.
    put_dir(&mut root, "crates/demo-hal-std/src");
    put(&mut root, "crates/demo-hal-std/src/lib.rs", "// the executor\n");

    let map = rust_platform_coverage_map(&root);
    assert_eq!(
        map.iter().map(|(p, _)| p.as_str()).collect::<Vec<_>>(),
        vec!["esp32"],
        "one family, and `std` is not one: {map:?}"
    );

    let led = row(&map, "esp32", "led");
    assert!(led.has_impl, "the backend declares the impl");
    assert!(led.is_stub, "…and its body is a placeholder");
    assert!(
        !led.implemented,
        "a placeholder is not coverage — the fill queue must not be empty here"
    );
    assert!(
        led.missing.is_empty(),
        "the method is declared, just not written: {:?}",
        led.missing
    );
}

/// Once the body is real the same file is coverage — the placeholder is the *body*, so filling
/// it is what clears the flag (nothing has to remember to remove a marker).
#[test]
fn writing_the_body_clears_the_placeholder() {
    let mut root = tree(&[]);
    put_dir(&mut root, "crates/demo-hal/src/hal");
    put(&mut root, "crates/demo-hal/src/hal/led.rs", "pub trait Led {\n    fn set(&mut self, on: bool);\n}\n");
    put_dir(&mut root, "crates/demo-hal-rp2040/src");
    put(&mut root, "crates/demo-hal-rp2040/src/lib.rs", "impl Led for GpioLed {\n    fn set(&mut self, on: bool) {\n        let _ = on;\n    }\n}\n");

    let map = rust_platform_coverage_map(&root);
    let cov = row(&map, "rp2040", "led");
    assert!(!cov.is_stub, "a real body is not a placeholder");
    assert!(cov.implemented, "and it counts as coverage");
    assert!(cov.has_impl);
}

/// **The stem is a file name, not the trait's name.** The reference workspace's `time.rs`
/// declares `DelayMs`, and this was caught by running the fill plan against that workspace:
/// matching the stem alone reported a real implementation as `none` — the one failure that
/// makes a fill rewrite code that is already there. Both directions are pinned here because
/// the scaffold emits this exact pair (`hal/time.rs` declaring `DelayMs`).
#[test]
fn a_trait_whose_name_differs_from_its_stem_still_matches() {
    let mut root = tree(&[]);
    put_dir(&mut root, "crates/demo-hal/src/hal");
    put(&mut root, "crates/demo-hal/src/hal/time.rs", "pub trait DelayMs {\n    fn delay_ms(&mut self, ms: u32);\n}\n");

    // One family has it written, the other still has the scaffold's placeholder.
    put_dir(&mut root, "crates/demo-hal-esp32/src");
    put(&mut root, "crates/demo-hal-esp32/src/time.rs", "impl DelayMs for FreeRtosDelay {\n    fn delay_ms(&mut self, ms: u32) {\n        let _ = ms;\n    }\n}\n");
    put_dir(&mut root, "crates/demo-hal-rp2040/src");
    put(&mut root, "crates/demo-hal-rp2040/src/lib.rs", "impl DelayMs for FamilyDelay {\n    fn delay_ms(&mut self, _ms: u32) {\n        unimplemented!(\"FamilyDelay::delay_ms\")\n    }\n}\n");

    let map = rust_platform_coverage_map(&root);

    let esp32 = row(&map, "esp32", "time");
    assert!(
        esp32.has_impl,
        "the impl exists, whatever the file is called: {esp32:?}"
    );
    assert!(esp32.implemented, "and it is written: {esp32:?}");
    assert!(!esp32.is_stub);

    let rp2040 = row(&map, "rp2040", "time");
    assert!(rp2040.has_impl, "the placeholder is still an impl");
    assert!(
        rp2040.is_stub,
        "named by its trait, not its stem: {rp2040:?}"
    );
    assert!(!rp2040.implemented);
}

/// A project with no Rust contracts contributes an empty map, so merging it into the C++
/// coverage is a no-op rather than a source of phantom interfaces.
#[test]
fn a_project_without_rust_contracts_contributes_nothing() {
    let root = tree(&[]);
    assert!(rust_platform_coverage_map(&root).is_empty());
}
