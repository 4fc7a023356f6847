//! The scaffold of an application with a Rust core and a SwiftUI shell.

use vstd::prelude::*;

use crate::text::{add_item, lowercase, replace, replaced, to_lowercase, trim, trimmed};
use crate::types::{
    ProjectStructure, ScaffoldFile, ScaffoldFileView, ScaffoldOutput, ScaffoldOutputView, SourceRole,
};

verus! {

/// The workspace manifest.
pub const WORKSPACE_CARGO: &'static str = "# __DISPLAY__ — Spire application monorepo (Rust core + SwiftUI app).\n#\n# Layout:\n#   crates/__NAME__/   Rust core (rlib + cdylib) on spire-actor + spire-core\n#   ui/swift/          host SwiftUI app embedding the core via the JSON FFI\n#   build/             app assembly (build/assemble-app.sh → <App>.app)\n\n[workspace]\nresolver = \"2\"\nmembers = [\"crates/__NAME__\"]\n\n[workspace.package]\nversion = \"0.1.0\"\nedition = \"2021\"\nlicense = \"GPL-3.0-or-later\"\n\n# Spire framework — sibling repos, resolved by path (must sit next to this repo).\n[workspace.dependencies]\nspire-actor = { path = \"../spire-actor\" }\nspire-core = { path = \"../spire-core\" }\ntokio = { version = \"1\", features = [\"full\"] }\nserde = { version = \"1\", features = [\"derive\"] }\nserde_json = \"1\"\n\n# Do NOT strip in release builds (rust-lang/rust#157750): rustc's\n# `-C strip=debuginfo` post-link strip step misaligns the LINKEDIT string pool\n# for cdylibs that use chained fixups, and dyld then rejects the dylib at\n# dlopen time. `strip = \"none\"` keeps the FFI dylib loadable.\n[profile.release]\nstrip = \"none\"\n";

/// The core's manifest.
pub const CRATE_CARGO: &'static str = "[package]\nname = \"__NAME__\"\nversion.workspace = true\nedition.workspace = true\ndescription = \"__NAME__ — Spire-based application core\"\n\n[lib]\ncrate-type = [\"cdylib\", \"rlib\"]\n\n[dependencies]\nspire-actor = { workspace = true }\nspire-core = { workspace = true }\ntokio = { workspace = true }\nserde = { workspace = true }\nserde_json = { workspace = true }\n";

/// The core's library.
pub const LIB_RS: &'static str = "//! __NAME__ — Spire-based application crate (the Rust core the SwiftUI app\n//! embeds as `lib__NAME__.dylib`).\n//!\n//! Built on spire-actor (the actor runtime) and spire-core (embedding/RAG,\n//! build metadata, LLM subsystems, config). The SwiftUI app talks JSON over\n//! the `spire_send_json` FFI entry point below.\n#![allow(dead_code)]\n\nuse std::ffi::{CStr, CString};\n\n/// Minimal JSON FFI entry point (mirrors spire-code's `spire_send_json`).\n/// The fill phase replaces this stub with the real application logic built on\n/// spire-actor + spire-core.\n#[no_mangle]\npub extern \"C\" fn spire_send_json(\n    request: *const std::os::raw::c_char,\n) -> *mut std::os::raw::c_char {\n    let _req = unsafe { CStr::from_ptr(request) }.to_string_lossy().to_string();\n    let reply = r#\"{\"ok\":true,\"result\":{\"status\":\"scaffold\",\"core\":\"__NAME__\"}}\"#;\n    CString::new(reply)\n        .map(|c| c.into_raw())\n        .unwrap_or(std::ptr::null_mut())\n}\n\n/// Free a string previously returned by [`spire_send_json`].\n#[no_mangle]\npub extern \"C\" fn spire_free_string(p: *mut std::os::raw::c_char) {\n    if !p.is_null() {\n        unsafe { drop(CString::from_raw(p)) };\n    }\n}\n";

/// The core's program.
pub const MAIN_RS: &'static str = "//! __NAME__ — command-line entry point (development).\nfn main() {\n    println!(\"__NAME__: Spire app core built. The SwiftUI app (ui/swift) embeds this crate.\");\n}\n";

/// The application's package.
pub const PACKAGE_SWIFT: &'static str = "// swift-tools-version: 5.10\nimport PackageDescription\n\nlet package = Package(\n    name: \"SpireUI\",\n    platforms: [\n        .macOS(.v14),\n    ],\n    products: [\n        .executable(name: \"SpireUI\", targets: [\"SpireUI\"]),\n    ],\n    targets: [\n        .executableTarget(name: \"SpireUI\", path: \"Sources/SpireUI\"),\n    ]\n)\n";

/// The application's entry point.
pub const APP_SWIFT: &'static str = "import SwiftUI\nimport AppKit\n\n/// __DISPLAY__ — minimal launchable SwiftUI shell. The fill phase replaces\n/// this with the real application UI (chat/RAG panels, project views, …).\n@main\nstruct SpireApp: App {\n    @State private var core = CoreBridge()\n\n    var body: some Scene {\n        WindowGroup {\n            ContentView()\n                .environment(core)\n                .frame(minWidth: 800, minHeight: 500)\n        }\n        .windowStyle(.titleBar)\n    }\n}\n";

/// The application's first view.
pub const CONTENT_SWIFT: &'static str = "import SwiftUI\n\n/// __DISPLAY__ — placeholder shell that pings the Rust core over the FFI.\nstruct ContentView: View {\n    @Environment(CoreBridge.self) private var core\n    @State private var output = \"not sent yet\"\n\n    var body: some View {\n        VStack(spacing: 16) {\n            Text(\"__DISPLAY__\")\n                .font(.largeTitle.weight(.semibold))\n            Text(core.statusText)\n                .foregroundStyle(.secondary)\n            Button(\"Ping Rust core\") {\n                output = core.send(#\"{\"method\":\"status\"}\"#) ?? \"no core\"\n            }\n            Text(output)\n                .font(.body.monospaced())\n                .textSelection(.enabled)\n        }\n        .padding(32)\n    }\n}\n";

/// The bridge from the application to the core.
pub const CORE_BRIDGE_SWIFT: &'static str = "import Foundation\nimport Observation\n\n/// Loads the Rust core (`lib__NAME__.dylib`) and calls it over the JSON FFI.\n/// The dylib lives in Contents/Frameworks when bundled, or in\n/// <repo-root>/target/release during development — same convention as\n/// spire-code's SpireFFI.\n@Observable\nfinal class CoreBridge {\n    private(set) var statusText = \"Rust core: not loaded\"\n    private var handle: UnsafeMutableRawPointer?\n\n    init() { load() }\n\n    private func load() {\n        var candidates: [String] = []\n        candidates.append(\n            Bundle.main.bundleURL\n                .appendingPathComponent(\"Contents\")\n                .appendingPathComponent(\"Frameworks\")\n                .appendingPathComponent(\"lib__NAME__.dylib\")\n                .path\n        )\n        candidates.append(\n            URL(fileURLWithPath: #filePath)\n                .deletingLastPathComponent()  // Bridge/\n                .deletingLastPathComponent()  // SpireUI/\n                .deletingLastPathComponent()  // Sources/\n                .deletingLastPathComponent()  // swift/\n                .deletingLastPathComponent()  // ui/\n                .deletingLastPathComponent()  // <repo root>/\n                .appendingPathComponent(\"target\")\n                .appendingPathComponent(\"release\")\n                .appendingPathComponent(\"lib__NAME__.dylib\")\n                .path\n        )\n        for p in candidates {\n            if let h = dlopen(p, RTLD_NOW | RTLD_LOCAL) {\n                handle = h\n                statusText = \"Rust core: loaded\"\n                return\n            }\n        }\n    }\n\n    /// Send a JSON request to the Rust core and return the JSON reply string.\n    func send(_ request: String) -> String? {\n        guard let h = handle,\n              let sendSym = dlsym(h, \"spire_send_json\"),\n              let freeSym = dlsym(h, \"spire_free_string\")\n        else { return nil }\n        let sendFn = unsafeBitCast(\n            sendSym,\n            to: (@convention(c) (UnsafePointer<CChar>) -> UnsafeMutablePointer<CChar>?).self\n        )\n        let freeFn = unsafeBitCast(\n            freeSym,\n            to: (@convention(c) (UnsafeMutablePointer<CChar>?) -> Void).self\n        )\n        let response = request.withCString { sendFn($0) }\n        defer { freeFn(response) }\n        return response.map { String(cString: $0) }\n    }\n\n    deinit {\n        if let h = handle { dlclose(h) }\n    }\n}\n";

/// The script that assembles the application.
pub const ASSEMBLE_SH: &'static str = "#!/bin/bash\n# assemble-app.sh — Builds the Rust core cdylib + Swift UI and assembles them\n# into a double-clickable macOS app bundle.\n#\n#   build/__DISPLAY__.app\n#     Contents/\n#       Info.plist\n#       MacOS/SpireUI                    (the SwiftUI executable)\n#       Frameworks/lib__NAME__.dylib     (the Rust core, loaded via dlopen)\n#\n# Dev-runnable only — unsigned, not notarized.\nset -euo pipefail\n\nROOT=\"$(cd \"$(dirname \"${BASH_SOURCE[0]}\")/..\" && pwd)\"\nAPP_NAME=\"__DISPLAY__\"\nAPP_DIR=\"$ROOT/build/$APP_NAME.app\"\nEXEC_NAME=\"SpireUI\"\nDYLIB=\"lib__NAME__.dylib\"\nBUNDLE_ID=\"com.naturesense.__NAME__\"\nMARKETING_VERSION=\"0.1.0\"\n\necho \"=== 1/3 Building Rust core (cdylib) ===\"\ncargo build --release -p __NAME__\n\necho \"=== 2/3 Building Swift UI ===\"\n(cd \"$ROOT/ui/swift\" && swift build -c release)\n\necho \"=== 3/3 Assembling $APP_NAME.app ===\"\nrm -rf \"$APP_DIR\"\nmkdir -p \"$APP_DIR/Contents/MacOS\" \"$APP_DIR/Contents/Frameworks\" \"$APP_DIR/Contents/Resources\"\n\ncp \"$ROOT/ui/swift/.build/release/$EXEC_NAME\" \"$APP_DIR/Contents/MacOS/$EXEC_NAME\"\ncp \"$ROOT/target/release/$DYLIB\" \"$APP_DIR/Contents/Frameworks/$DYLIB\"\n\ncat > \"$APP_DIR/Contents/Info.plist\" <<PLIST\n<?xml version=\"1.0\" encoding=\"UTF-8\"?>\n<!DOCTYPE plist PUBLIC \"-//Apple//DTD PLIST 1.0//EN\" \"http://www.apple.com/DTDs/PropertyList-1.0.dtd\">\n<plist version=\"1.0\">\n<dict>\n    <key>CFBundleName</key>\n    <string>$APP_NAME</string>\n    <key>CFBundleDisplayName</key>\n    <string>$APP_NAME</string>\n    <key>CFBundleIdentifier</key>\n    <string>$BUNDLE_ID</string>\n    <key>CFBundleExecutable</key>\n    <string>$EXEC_NAME</string>\n    <key>CFBundlePackageType</key>\n    <string>APPL</string>\n    <key>CFBundleShortVersionString</key>\n    <string>$MARKETING_VERSION</string>\n    <key>CFBundleVersion</key>\n    <string>$MARKETING_VERSION</string>\n    <key>CFBundleInfoDictionaryVersion</key>\n    <string>6.0</string>\n    <key>LSMinimumSystemVersion</key>\n    <string>14.0</string>\n    <key>LSApplicationCategoryType</key>\n    <string>public.app-category.utilities</string>\n    <key>NSHighResolutionCapable</key>\n    <true/>\n    <key>NSPrincipalClass</key>\n    <string>NSApplication</string>\n</dict>\n</plist>\nPLIST\n\nchmod +x \"$APP_DIR/Contents/MacOS/$EXEC_NAME\"\n\necho \"\"\necho \"=== Done ===\"\necho \"  App: $APP_DIR\"\necho \"  Run: open $APP_DIR   (or $APP_DIR/Contents/MacOS/$EXEC_NAME)\"\n";

/// The make rules.
pub const MAKEFILE: &'static str = "# __DISPLAY__ — Rust core (crates/__NAME__) + SwiftUI app (ui/swift).\n#\n#   make rust   — build the Rust core (lib__NAME__.dylib)\n#   make swift  — build the SwiftUI executable\n#   make app    — build everything + assemble build/__DISPLAY__.app\n#   make run    — assemble + launch the app\n#   make clean  — remove build artifacts\n\n.PHONY: rust swift app run clean\n\nrust:\n\tcargo build --release -p __NAME__\n\nswift:\n\tcd ui/swift && swift build\n\napp:\n\t@./build/assemble-app.sh\n\nrun: app\n\t@open ./build/__DISPLAY__.app\n\nclean:\n\tcargo clean\n\trm -rf build/__DISPLAY__.app\n\tcd ui/swift && swift package clean || true\n";

/// What version control leaves out.
pub const GITIGNORE: &'static str = "/target/\n/build/\n.DS_Store\nui/swift/.build/\n";

/// The name of the core's crate: in lower case, with hyphens for blanks.
pub open spec fn crate_name(project: Seq<char>) -> Seq<char> {
    replaced(lowercase(trimmed(project)), " "@, "-"@)
}

/// The directory of the core's crate.
pub open spec fn crate_root(name: Seq<char>) -> Seq<char> {
    "crates/"@ + name
}

/// A template with the crate's name and the project's name filled in.
pub open spec fn filled(template: Seq<char>, name: Seq<char>, display: Seq<char>) -> Seq<char> {
    replaced(replaced(template, "__NAME__"@, name), "__DISPLAY__"@, display)
}

fn fill(template: &str, name: &str, display: &str) -> (r: String)
    ensures
        r@ == filled(template@, name@, display@),
{
    proof {
        reveal_strlit("__NAME__");
        reveal_strlit("__DISPLAY__");
    }
    replace(replace(template, "__NAME__", name).as_str(), "__DISPLAY__", display)
}

/// A file of build wiring.
pub open spec fn wiring(path: Seq<char>, content: Seq<char>) -> ScaffoldFileView {
    ScaffoldFileView { path, content, structural: true, fill_role: None }
}

/// A source to be filled in.
pub open spec fn fillable(path: Seq<char>, content: Seq<char>) -> ScaffoldFileView {
    ScaffoldFileView { path, content, structural: false, fill_role: Some(SourceRole::App) }
}

fn add_wiring(files: &mut Vec<ScaffoldFile>, path: String, content: String)
    ensures
        final(files).deep_view() == old(files).deep_view().push(wiring(path@, content@)),
{
    add_item(files, ScaffoldFile { path, content, structural: true, fill_role: None });
}

fn add_fillable(files: &mut Vec<ScaffoldFile>, path: String, content: String)
    ensures
        final(files).deep_view() == old(files).deep_view().push(fillable(path@, content@)),
{
    add_item(
        files,
        ScaffoldFile { path, content, structural: false, fill_role: Some(SourceRole::App) },
    );
}

/// All files of an application.
pub open spec fn app_files(name: Seq<char>, display: Seq<char>) -> Seq<ScaffoldFileView> {
    seq![
        wiring("Cargo.toml"@, filled(WORKSPACE_CARGO@, name, display)),
        wiring(crate_root(name) + "/Cargo.toml"@, filled(CRATE_CARGO@, name, display)),
        fillable(crate_root(name) + "/src/lib.rs"@, filled(LIB_RS@, name, display)),
        fillable(crate_root(name) + "/src/main.rs"@, filled(MAIN_RS@, name, display)),
        wiring("ui/swift/Package.swift"@, filled(PACKAGE_SWIFT@, name, display)),
        fillable("ui/swift/Sources/SpireUI/App.swift"@, filled(APP_SWIFT@, name, display)),
        fillable("ui/swift/Sources/SpireUI/ContentView.swift"@, filled(CONTENT_SWIFT@, name, display)),
        wiring("ui/swift/Sources/SpireUI/Bridge/CoreBridge.swift"@, filled(CORE_BRIDGE_SWIFT@, name, display)),
        wiring("build/assemble-app.sh"@, filled(ASSEMBLE_SH@, name, display)),
        wiring("Makefile"@, filled(MAKEFILE@, name, display)),
        wiring(".gitignore"@, GITIGNORE@),
    ]
}

fn make_app_files(name: &str, display: &str) -> (r: Vec<ScaffoldFile>)
    ensures
        r.deep_view() == app_files(name@, display@),
{
    let mut files: Vec<ScaffoldFile> = Vec::new();
    assert(files.deep_view() =~= Seq::empty());
    add_wiring(&mut files, "Cargo.toml".to_owned(), fill(WORKSPACE_CARGO, name, display));
    add_wiring(&mut files, below_crate(name, "/Cargo.toml"), fill(CRATE_CARGO, name, display));
    add_fillable(&mut files, below_crate(name, "/src/lib.rs"), fill(LIB_RS, name, display));
    add_fillable(&mut files, below_crate(name, "/src/main.rs"), fill(MAIN_RS, name, display));
    add_wiring(&mut files, "ui/swift/Package.swift".to_owned(), fill(PACKAGE_SWIFT, name, display));
    add_fillable(&mut files, "ui/swift/Sources/SpireUI/App.swift".to_owned(), fill(APP_SWIFT, name, display));
    add_fillable(&mut files, "ui/swift/Sources/SpireUI/ContentView.swift".to_owned(), fill(CONTENT_SWIFT, name, display));
    add_wiring(&mut files, "ui/swift/Sources/SpireUI/Bridge/CoreBridge.swift".to_owned(), fill(CORE_BRIDGE_SWIFT, name, display));
    add_wiring(&mut files, "build/assemble-app.sh".to_owned(), fill(ASSEMBLE_SH, name, display));
    add_wiring(&mut files, "Makefile".to_owned(), fill(MAKEFILE, name, display));
    add_wiring(&mut files, ".gitignore".to_owned(), GITIGNORE.to_owned());
    assert(files.deep_view() =~= app_files(name@, display@));
    files
}

fn below_crate(name: &str, path: &str) -> (r: String)
    ensures
        r@ == crate_root(name@) + path@,
{
    let mut s = "crates/".to_owned();
    s.append(name);
    s.append(path);
    s
}

/// The scaffold of an application.
pub open spec fn app_scaffold(project: Seq<char>) -> ScaffoldOutputView {
    let name = crate_name(project);
    let display = trimmed(project);
    ScaffoldOutputView {
        build_file: "Cargo.toml"@,
        build_content: filled(WORKSPACE_CARGO@, name, display),
        source_dir: crate_root(name) + "/src"@,
        source_file: "main.rs"@,
        source_content: filled(MAIN_RS@, name, display),
        files: app_files(name, display),
        platform_targets: seq!["host"@],
        fill_roots: seq![crate_root(name) + "/src"@, "ui/swift/Sources"@],
        dependency_sections: seq![crate_root(name) + "/Cargo.toml"@],
        structure: ProjectStructure::SpireApp,
        embedded: false,
    }
}

/// Makes the files of an application: a workspace with the core's crate, a
/// SwiftUI shell that embeds it, and the rules that assemble the two.
pub fn spire_app_scaffold(project_name: &str) -> (r: ScaffoldOutput)
    ensures
        r.deep_view() == app_scaffold(project_name@),
{
    proof {
        reveal_strlit(" ");
    }
    let display = trim(project_name);
    let lower = to_lowercase(display);
    let id = replace(lower.as_str(), " ", "-");
    let name = id.as_str();
    let mut r = ScaffoldOutput::default();
    r.build_file = "Cargo.toml".to_owned();
    r.build_content = fill(WORKSPACE_CARGO, name, display);
    r.source_dir = below_crate(name, "/src");
    r.source_file = "main.rs".to_owned();
    r.source_content = fill(MAIN_RS, name, display);
    r.files = make_app_files(name, display);
    r.platform_targets = vec!["host".to_owned()];
    r.fill_roots = vec![below_crate(name, "/src"), "ui/swift/Sources".to_owned()];
    r.dependency_sections = vec![below_crate(name, "/Cargo.toml")];
    r.structure = ProjectStructure::SpireApp;
    assert(r.platform_targets.deep_view() =~= seq!["host"@]);
    assert(r.fill_roots.deep_view() =~= app_scaffold(project_name@).fill_roots);
    assert(r.dependency_sections.deep_view() =~= app_scaffold(project_name@).dependency_sections);
    assert(r.deep_view() =~= app_scaffold(project_name@));
    r
}

} // verus!
