//! The build modules of the plain languages.

use spire_build::command::{
    build_spec_dir, captured, command_line, finish, refuse, start_failure, CommandLine, Plan, Request,
};
use spire_build::go::GoBuildModule;
use spire_build::json::parse_json;
use spire_build::make::MakeBuildModule;
use spire_build::node::{detect_pm, outer_workspace_dirs, simple_glob_match, NodeBuildModule};
use spire_build::project::{Entry, ProjectTree};
use spire_build::python::{clean_output, is_build_artifact, report_removal, PythonBuildModule};
use spire_build::ruby::RubyBuildModule;
use spire_build::spire_app_scaffold::spire_app_scaffold;
use spire_build::types::{
    build_system_for_config, default_true, is_native_structure, BuildOptions, BuildSpec, ProjectStructure,
    SourceKind, TestOptions,
};

fn run(program: &str, args: &[&str]) -> Plan {
    Plan::Run(line(program, args))
}

fn line(program: &str, args: &[&str]) -> CommandLine {
    CommandLine { program: program.to_string(), args: args.iter().map(|a| a.to_string()).collect() }
}

fn refusal(text: &str) -> Plan {
    Plan::Refuse(text.to_string())
}

fn tree(paths: &[(&str, Option<&str>)]) -> ProjectTree {
    ProjectTree {
        root: "/work/demo".to_string(),
        entries: paths
            .iter()
            .map(|(p, c)| Entry {
                path: p.to_string(),
                is_dir: c.is_none(),
                content: c.map(|t| t.to_string()),
            })
            .collect(),
    }
}

/// Clean takes the build/, dist/ and .pytest_cache/ directories, `__pycache__`
/// and `*.egg-info`, and leaves source files.
#[test]
fn clean_removes_artifacts_keeps_sources() {
    let dirs = ["build", "dist", ".pytest_cache", "src", "src/__pycache__", "my_pkg.egg-info"];
    let mut left: Vec<&str> = dirs.to_vec();
    let mut removed = Vec::new();
    for dir in dirs {
        let name = dir.rsplit('/').next().unwrap();
        if is_build_artifact(name) {
            left.retain(|d| *d != dir);
            removed.push(report_removal(dir, &None));
        }
    }
    let out = clean_output(&removed);
    assert!(out.success, "clean should succeed");
    assert_eq!(left, vec!["src"]);
    assert!(!is_build_artifact("main.py") && !is_build_artifact("pyproject.toml"));
    assert_eq!(out.output, "build\ndist\n.pytest_cache\nsrc/__pycache__\nmy_pkg.egg-info");
    assert_eq!(out.exit_code, Some(0));
    assert_eq!(out.command, "python clean (remove build artifacts)");
}

#[test]
fn a_clean_that_finds_nothing_says_so() {
    assert_eq!(clean_output(&Vec::new()).output, "Nothing to clean");
    assert_eq!(
        report_removal("/p/dist", &Some("denied".to_string())),
        "/p/dist (failed: denied)"
    );
}

/// Python module declares clean/lint/format/fix support.
#[test]
fn capability_flags() {
    let cap = PythonBuildModule::new().describe_capabilities();
    assert!(cap.supports_clean);
    assert!(cap.supports_lint);
    assert!(cap.supports_format);
    assert!(cap.supports_fix);
}

#[test]
fn other_modules_declare_less() {
    for cap in [
        GoBuildModule::new().describe_capabilities(),
        MakeBuildModule::new().describe_capabilities(),
        RubyBuildModule::new().describe_capabilities(),
        NodeBuildModule::new().describe_capabilities(),
    ] {
        assert!(!cap.supports_clean && !cap.supports_lint && !cap.supports_format && !cap.supports_fix);
        assert!(!cap.supports_flash);
    }
    assert_eq!(GoBuildModule::new().describe_capabilities().mcp_servers[0].command, "gomod-mcp-server");
    assert_eq!(MakeBuildModule::new().describe_capabilities().config_files, vec!["Makefile"]);
    assert_eq!(RubyBuildModule::new().describe_capabilities().build_system, "Bundler");
    assert_eq!(
        NodeBuildModule::new().describe_capabilities().source_extensions,
        vec!["js", "jsx", "ts", "tsx"]
    );
}

#[test]
fn each_module_has_its_commands() {
    assert_eq!(GoBuildModule::new().plan(Request::Build), run("go", &["build", "./..."]));
    assert_eq!(GoBuildModule::new().plan(Request::Test), run("go", &["test", "./..."]));
    assert_eq!(MakeBuildModule::new().plan(Request::Build), run("make", &["build"]));
    assert_eq!(MakeBuildModule::new().plan(Request::Test), run("make", &["test"]));
    assert_eq!(RubyBuildModule::new().plan(Request::Build), run("bundle", &["exec", "rake", "build"]));
    assert_eq!(RubyBuildModule::new().plan(Request::Test), run("bundle", &["exec", "rspec"]));
    let python = PythonBuildModule::new();
    assert_eq!(python.plan(Request::Build), run("python", &["-m", "build"]));
    assert_eq!(python.plan(Request::Test), run("pytest", &[]));
    assert_eq!(python.plan(Request::Clean), Plan::Direct);
    assert_eq!(
        python.plan(Request::Lint),
        Plan::RunOr(line("ruff", &["check", "."]), line("flake8", &["."]))
    );
    assert_eq!(python.plan(Request::Format), run("ruff", &["format", "--check", "."]));
    assert_eq!(python.plan(Request::Fix), run("ruff", &["check", "--fix", "."]));
}

#[test]
fn what_is_not_served_is_refused() {
    assert_eq!(GoBuildModule::new().plan(Request::Clean), refusal("clean not implemented for this module"));
    assert_eq!(MakeBuildModule::new().plan(Request::Lint), refusal("lint not implemented for this module"));
    assert_eq!(RubyBuildModule::new().plan(Request::Fix), refusal("fix not implemented for this module"));
    assert_eq!(refuse(Request::Format), refusal("format not implemented for this module"));
    assert_eq!(refuse(Request::Build), refusal("build not implemented for this module"));
    assert_eq!(refuse(Request::Test), refusal("test not implemented for this module"));
    assert_eq!(refuse(Request::LintStreaming), refusal("lint streaming not implemented for this module"));
    assert_eq!(refuse(Request::FixStreaming), refusal("fix streaming not implemented for this module"));
}

#[test]
fn a_section_limits_what_is_read() {
    let text = "[tool.x]\nname = \"no\"\n\n[project]\nname = \"demo\"\nversion = '1.2'\n[other]\ndescription = \"no\"\n";
    let m = PythonBuildModule::new().analyze("/p", &Ok(text.to_string())).unwrap();
    assert_eq!(m.project_name, Some("demo".to_string()));
    assert_eq!(m.version, Some("1.2".to_string()));
    assert_eq!(m.description, None);
    assert_eq!(m.build_system, "Python");
    assert_eq!(m.project_type, "Python_project");
    assert_eq!(m.config_files, vec!["pyproject.toml"]);
    assert_eq!(m.project_path, Some("/p".to_string()));
}

#[test]
fn the_whole_file_is_read_without_a_section() {
    let text = "NAME = first\n[x]\nname = second\ndescription = a = b\n";
    let m = MakeBuildModule::new().analyze("/p", &Ok(text.to_string())).unwrap();
    assert_eq!(m.project_name, Some("first".to_string()));
    assert_eq!(m.description, Some("a".to_string()));
    assert_eq!(m.version, None);
    assert_eq!(m.build_system, "Make");
}

#[test]
fn a_file_that_cannot_be_read_is_an_error() {
    let gone: Result<String, String> = Err("gone".to_string());
    assert_eq!(GoBuildModule::new().analyze("/p", &gone).unwrap_err(), "Failed to read go.mod: gone");
    assert_eq!(RubyBuildModule::new().analyze("/p", &gone).unwrap_err(), "Failed to read Gemfile: gone");
    assert_eq!(
        NodeBuildModule::new().analyze(&tree(&[]), &gone).unwrap_err(),
        "Failed to read package.json: gone"
    );
}

#[test]
fn a_new_project_carries_its_name() {
    let go = GoBuildModule::new().scaffold("demo");
    assert_eq!(go.build_file, "go.mod");
    assert_eq!(go.build_content, "module demo\n\ngo 1.22\n");
    assert_eq!((go.source_dir.as_str(), go.source_file.as_str()), ("", "main.go"));
    assert!(go.source_content.contains("Hello from demo!"));
    let make = MakeBuildModule::new().scaffold("demo");
    assert_eq!(make.build_file, "Makefile");
    let ruby = RubyBuildModule::new().scaffold("demo");
    assert_eq!(ruby.source_content, "puts \"Hello from demo!\"\n");
    let python = PythonBuildModule::new().scaffold("demo");
    assert!(python.build_content.starts_with("[project]\nname = \"demo\"\n"));
    let node = NodeBuildModule::new().scaffold("demo");
    assert!(node.build_content.contains("\"name\": \"demo\""));
    assert_eq!(node.source_file, "index.js");
    assert_eq!(node.structure, ProjectStructure::Native);
}

#[test]
fn a_node_package_is_read() {
    let text = r#"{
  "name": "app", "version": "2.0.0", "description": "d",
  "main": "index.js", "bin": {"one": "bin/one.js", "two": "bin/two.js"},
  "scripts": {"build": "tsc", "odd": 3},
  "dependencies": {"left": "^1"}, "devDependencies": {"right": "~2"}
}"#;
    let t = tree(&[("package.json", Some(text)), ("yarn.lock", Some(""))]);
    let m = NodeBuildModule::new().analyze(&t, &Ok(text.to_string())).unwrap();
    assert_eq!(m.project_name, Some("app".to_string()));
    assert_eq!(m.build_system, "yarn");
    assert_eq!(m.project_type, "node_package");
    assert!(!m.is_workspace);
    assert_eq!(m.config_files, vec!["package.json", "yarn.lock"]);
    let names: Vec<&str> = m.targets.iter().map(|t| t.name.as_str()).collect();
    assert_eq!(names, vec!["app", "one", "two"]);
    assert_eq!(m.targets[0].kind, vec!["lib"]);
    assert_eq!(m.targets[1].source_path, Some("bin/one.js".to_string()));
    assert_eq!(m.targets[1].source_kind, SourceKind::Single);
    assert_eq!(m.scripts[0].command, "tsc");
    assert_eq!(m.scripts[1].command, "");
    let call = m.scripts[0].tool_call.as_ref().unwrap();
    assert_eq!((call.tool.as_str(), call.mode.as_str()), ("project/build", "build"));
    assert_eq!(call.build_system, "yarn");
    let deps: Vec<(&str, Option<&str>)> =
        m.dependencies.iter().map(|d| (d.name.as_str(), d.kind.as_deref())).collect();
    assert_eq!(deps, vec![("left", Some("normal")), ("right", Some("dev"))]);
    assert_eq!(m.dependencies[0].version_req, Some("^1".to_string()));
    assert_eq!(m.raw, Some(text.to_string()));
}

#[test]
fn a_node_package_that_is_no_json_is_refused() {
    let e = NodeBuildModule::new().analyze(&tree(&[]), &Ok("{".to_string())).unwrap_err();
    assert_eq!(e, "Invalid package.json: EOF while parsing an object at line 1 column 1");
}

#[test]
fn an_editor_extension_is_told_from_a_package() {
    let by_engine = r#"{"engines": {"vscode": "^1"}}"#;
    let m = NodeBuildModule::new().analyze(&tree(&[]), &Ok(by_engine.to_string())).unwrap();
    assert_eq!(m.project_type, "vscode_extension");
    let t = tree(&[("pnpm-workspace.yaml", Some(""))]);
    let m = NodeBuildModule::new().analyze(&t, &Ok("{}".to_string())).unwrap();
    assert_eq!(m.project_type, "pnpm_workspace");
    assert_eq!(m.build_system, "pnpm");
    assert!(m.is_workspace);
}

#[test]
fn workspace_members_are_directories() {
    let t = tree(&[("core", None), ("cover", None), ("notes", None), ("core.txt", Some(""))]);
    let text = r#"{"workspaces": ["notes", "co*", "absent", 3, "."]}"#;
    let m = NodeBuildModule::new().analyze(&t, &Ok(text.to_string())).unwrap();
    let found: Vec<(&str, &str)> =
        m.workspace_members.iter().map(|w| (w.name.as_str(), w.path.as_str())).collect();
    assert_eq!(
        found,
        vec![("notes", "notes"), ("core", "core"), ("cover", "cover"), ("demo", ".")]
    );
    assert!(m.is_workspace);
    let text = r#"{"workspaces": {"packages": ["*"]}}"#;
    let m = NodeBuildModule::new().analyze(&t, &Ok(text.to_string())).unwrap();
    let paths: Vec<&str> = m.workspace_members.iter().map(|w| w.path.as_str()).collect();
    assert_eq!(paths, vec!["core", "cover", "notes"]);
}

#[test]
fn workspace_patterns_match_their_last_step() {
    let t = tree(&[
        ("packages", None),
        ("packages/app", None),
        ("packages/lib", None),
        ("packages/readme.md", Some("")),
        ("core", None),
        ("../shared", None),
        ("../shared/log", None),
    ]);
    let text = r#"{"workspaces": ["packages/*", "./packages/l?b/", "../shared/*", "../shared", "*/app"]}"#;
    let m = NodeBuildModule::new().analyze(&t, &Ok(text.to_string())).unwrap();
    let found: Vec<(&str, &str)> =
        m.workspace_members.iter().map(|w| (w.name.as_str(), w.path.as_str())).collect();
    assert_eq!(
        found,
        vec![
            ("app", "packages/app"),
            ("lib", "packages/lib"),
            ("lib", "packages/lib"),
            ("log", "../shared/log"),
            ("shared", "../shared"),
        ]
    );
    let items = parse_json(text).unwrap();
    assert_eq!(
        outer_workspace_dirs("/home/demo", &items),
        vec!["../shared".to_string(), "..".to_string()]
    );
}

#[test]
fn wildcards_fit_names() {
    assert!(simple_glob_match("*", "anything"));
    assert!(simple_glob_match("a*c", "abc"));
    assert!(simple_glob_match("a*b*c", "a-b-c"));
    assert!(!simple_glob_match("a*b*c", "a-c"));
    assert!(simple_glob_match("a?c", "abc"));
    assert!(!simple_glob_match("a?c", "abbc"));
    assert!(simple_glob_match("exact", "exact"));
    assert!(!simple_glob_match("packages/*", "core"));
    assert!(!simple_glob_match("a*", "b"));
    assert!(!simple_glob_match("*a", "b"));
    assert!(simple_glob_match("?*", "a"));
    assert!(!simple_glob_match("?*", ""));
    assert!(!simple_glob_match("a*a", "a"));
    assert!(simple_glob_match("?", "é"));
    assert!(simple_glob_match("p?ck*-?", "pack-age-x"));
}

#[test]
fn the_package_manager_comes_from_the_lock_file() {
    assert_eq!(detect_pm(&tree(&[("pnpm-lock.yaml", Some("")), ("yarn.lock", Some(""))])), "pnpm");
    assert_eq!(detect_pm(&tree(&[("yarn.lock", Some(""))])), "yarn");
    assert_eq!(detect_pm(&tree(&[])), "npm");
    let node = NodeBuildModule::new();
    let mut build = BuildOptions::default();
    let mut test = TestOptions::default();
    build.mode = String::new();
    assert_eq!(node.plan(&tree(&[]), &build, &test, Request::Build), run("npm", &["run", "build"]));
    build.mode = "dist".to_string();
    assert_eq!(node.plan(&tree(&[]), &build, &test, Request::Build), run("npm", &["run", "dist"]));
    assert_eq!(node.plan(&tree(&[]), &build, &test, Request::Test), run("npm", &["run", "test"]));
    test.filter = Some("one".to_string());
    assert_eq!(
        node.plan(&tree(&[]), &build, &test, Request::Test),
        run("npm", &["run", "test", "--", "one"])
    );
}

#[test]
fn output_is_merged_with_what_was_reported() {
    let args = vec!["-v".to_string(), "x".to_string()];
    assert_eq!(command_line("tool", &args), "tool -v x");
    let both = captured("tool", &args, "out", "err", false, Some(2));
    assert_eq!(both.command, "tool -v x");
    assert_eq!(both.output, "out\nerr");
    assert_eq!((both.success, both.exit_code), (false, Some(2)));
    let one = captured("tool", &Vec::new(), "out", "", true, None);
    assert_eq!(one.command, "tool ");
    assert_eq!(one.output, "out");
    assert_eq!(start_failure("tool", "no such file"), "Failed to execute tool: no such file");
}

#[test]
fn a_target_runs_in_its_directory() {
    let spec = |dir: &str| BuildSpec {
        command: "c".to_string(),
        arguments: Vec::new(),
        env: Vec::new(),
        working_dir: dir.to_string(),
    };
    assert_eq!(build_spec_dir("/p", &spec("")), "/p");
    assert_eq!(build_spec_dir("/p", &spec("sub")), "/p/sub");
    assert_eq!(build_spec_dir("/p", &spec("/abs")), "/abs");
}

#[test]
fn a_stream_ends_with_one_event() {
    let e = finish("lint ", "/p", "1.5");
    assert_eq!(e.line, "Finished lint /p in 1.5s");
    assert_eq!(e.level, "finished");
    assert_eq!((e.target, e.file, e.line_number), (None, None, None));
}

#[test]
fn a_configuration_names_its_build_system() {
    assert_eq!(build_system_for_config("go.mod"), "Go");
    assert_eq!(build_system_for_config("package.json"), "npm");
    assert_eq!(build_system_for_config("settings.gradle.kts"), "Gradle");
    assert_eq!(build_system_for_config("makefile"), "Make");
    assert_eq!(build_system_for_config("*.gemspec"), "Ruby");
    assert_eq!(build_system_for_config("other"), "Unknown");
}

#[test]
fn a_scaffold_is_native_and_structural_by_default() {
    assert!(default_true());
    assert!(is_native_structure(&ProjectStructure::Native));
    assert!(!is_native_structure(&ProjectStructure::Hal));
}

#[test]
fn an_application_is_scaffolded() {
    let out = spire_app_scaffold("My App");
    assert_eq!(out.structure, ProjectStructure::SpireApp);
    assert_eq!(out.build_file, "Cargo.toml");
    assert_eq!(out.files[1].path, "crates/my-app/Cargo.toml");
    assert!(out.files[1].structural && out.files[1].fill_role.is_none());
    assert_eq!(out.files[2].path, "crates/my-app/src/lib.rs");
    assert!(!out.files[2].structural);
    assert_eq!(out.fill_roots, vec!["crates/my-app/src", "ui/swift/Sources"]);
    assert_eq!(out.platform_targets, vec!["host"]);
    assert!(out.files.iter().all(|f| !f.content.contains("__NAME__") && !f.content.contains("__DISPLAY__")));
    assert!(out.files.iter().any(|f| f.content.contains("My App")));
}
