//! Python projects: `pyproject.toml` analysis, commands, cleaning and scaffold.

use vstd::prelude::*;

use crate::command::{
    CommandLine, CommandLineView, CommandOutput, CommandOutputView, Plan, PlanView, Request,
};
use crate::source::{key_value_metadata, parse_key_value};
use crate::text::{ends, ends_with, join, joined, same, replace, replaced};
use crate::types::{
    BuildMetadata, BuildMetadataView, McpServerDependency, McpServerDependencyView, ModuleCapability,
    ModuleCapabilityView, ProjectStructure, ScaffoldOutput, ScaffoldOutputView,
};

verus! {

/// The Python build module.
#[derive(Debug, Clone, Copy, PartialEq, Eq, Structural)]
pub struct PythonBuildModule;

impl PythonBuildModule {
    /// The module.
    pub fn new() -> (r: Self)
        ensures
            r == PythonBuildModule,
    {
        PythonBuildModule
    }

    /// What analysis finds in the configuration file.
    pub open spec fn metadata(root: Seq<char>, content: Seq<char>) -> BuildMetadataView {
        BuildMetadataView {
            build_system: "Python"@,
            project_type: "Python_project"@,
            ..key_value_metadata(root, "pyproject.toml"@, content, "project"@)
        }
    }

    /// Analyses a project from its `pyproject.toml`; the content is what reading it gave.
    pub fn analyze(&self, root: &str, content: &Result<String, String>) -> (r: Result<
        BuildMetadata,
        String,
    >)
        ensures
            (match content {
                Ok(c) => r matches Ok(m) && m.deep_view() == Self::metadata(root@, c@),
                Err(e) => r matches Err(m) && m@ == "Failed to read "@ + "pyproject.toml"@ + ": "@ + e@,
            }),
    {
        match parse_key_value(root, "pyproject.toml", content, "project") {
            Ok(found) => {
                let mut m = found;
                m.build_system = "Python".to_owned();
                m.project_type = "Python_project".to_owned();
                Ok(m)
            },
            Err(e) => Err(e),
        }
    }

    /// What is done about a request. Cleaning runs no command: artifacts are
    /// removed one by one.
    pub open spec fn planned(request: Request) -> PlanView {
        match request {
            Request::Build => PlanView::Run(CommandLineView { program: "python"@, args: seq!["-m"@, "build"@] }),
            Request::Test => PlanView::Run(CommandLineView { program: "pytest"@, args: Seq::empty() }),
            Request::Clean => PlanView::Direct,
            Request::Lint => PlanView::RunOr(
                CommandLineView { program: "ruff"@, args: seq!["check"@, "."@] },
                CommandLineView { program: "flake8"@, args: seq!["."@] },
            ),
            Request::LintStreaming => PlanView::RunOr(
                CommandLineView { program: "ruff"@, args: seq!["check"@, "."@] },
                CommandLineView { program: "flake8"@, args: seq!["."@] },
            ),
            Request::Format => PlanView::Run(CommandLineView { program: "ruff"@, args: seq!["format"@, "--check"@, "."@] }),
            Request::Fix => PlanView::Run(CommandLineView { program: "ruff"@, args: seq!["check"@, "--fix"@, "."@] }),
            Request::FixStreaming => PlanView::Run(CommandLineView { program: "ruff"@, args: seq!["check"@, "--fix"@, "."@] }),
        }
    }

    /// What is done about a request.
    pub fn plan(&self, request: Request) -> (r: Plan)
        ensures
            r.deep_view() == Self::planned(request),
    {
        match request {
            Request::Build => {
                let args: Vec<String> = vec!["-m".to_owned(), "build".to_owned()];
                assert(args.deep_view() =~= seq!["-m"@, "build"@]);
                Plan::Run(CommandLine { program: "python".to_owned(), args })
            },
            Request::Test => {
                let args: Vec<String> = Vec::new();
                assert(args.deep_view() =~= Seq::<Seq<char>>::empty());
                Plan::Run(CommandLine { program: "pytest".to_owned(), args })
            },
            Request::Clean => Plan::Direct,
            Request::Lint => {
                let args: Vec<String> = vec!["check".to_owned(), ".".to_owned()];
                assert(args.deep_view() =~= seq!["check"@, "."@]);
                let others: Vec<String> = vec![".".to_owned()];
                assert(others.deep_view() =~= seq!["."@]);
                Plan::RunOr(
                    CommandLine { program: "ruff".to_owned(), args },
                    CommandLine { program: "flake8".to_owned(), args: others },
                )
            },
            Request::LintStreaming => {
                let args: Vec<String> = vec!["check".to_owned(), ".".to_owned()];
                assert(args.deep_view() =~= seq!["check"@, "."@]);
                let others: Vec<String> = vec![".".to_owned()];
                assert(others.deep_view() =~= seq!["."@]);
                Plan::RunOr(
                    CommandLine { program: "ruff".to_owned(), args },
                    CommandLine { program: "flake8".to_owned(), args: others },
                )
            },
            Request::Format => {
                let args: Vec<String> = vec!["format".to_owned(), "--check".to_owned(), ".".to_owned()];
                assert(args.deep_view() =~= seq!["format"@, "--check"@, "."@]);
                Plan::Run(CommandLine { program: "ruff".to_owned(), args })
            },
            Request::Fix => {
                let args: Vec<String> = vec!["check".to_owned(), "--fix".to_owned(), ".".to_owned()];
                assert(args.deep_view() =~= seq!["check"@, "--fix"@, "."@]);
                Plan::Run(CommandLine { program: "ruff".to_owned(), args })
            },
            Request::FixStreaming => {
                let args: Vec<String> = vec!["check".to_owned(), "--fix".to_owned(), ".".to_owned()];
                assert(args.deep_view() =~= seq!["check"@, "--fix"@, "."@]);
                Plan::Run(CommandLine { program: "ruff".to_owned(), args })
            },
        }
    }

    /// What the module can do.
    pub open spec fn capabilities() -> ModuleCapabilityView {
        ModuleCapabilityView {
            name: "python"@,
            config_files: seq!["pyproject.toml"@],
            build_system: "Python"@,
            language: "Python"@,
            source_extensions: seq!["py"@],
            supports_clean: true,
            supports_lint: true,
            supports_format: true,
            supports_fix: true,
            supports_flash: false,
            mcp_servers: seq![McpServerDependencyView {
                name: "pypi-mcp"@,
                package: "pypi-mcp-server"@,
                install_command: "cargo install pypi-mcp-server"@,
                command: "pypi-mcp-server"@,
                args: Seq::empty(),
                autostart: false,
                build_type: Some("PyPI"@),
                allowed_for_steps: seq!["discover_dependencies"@],
                allowed_tools: Seq::empty(),
            }],
        }
    }

    /// What the module can do.
    pub fn describe_capabilities(&self) -> (r: ModuleCapability)
        ensures
            r.deep_view() == Self::capabilities(),
    {
        let server = McpServerDependency {
            name: "pypi-mcp".to_owned(),
            package: "pypi-mcp-server".to_owned(),
            install_command: "cargo install pypi-mcp-server".to_owned(),
            command: "pypi-mcp-server".to_owned(),
            args: Vec::new(),
            autostart: false,
            build_type: Some("PyPI".to_owned()),
            allowed_for_steps: vec!["discover_dependencies".to_owned()],
            allowed_tools: Vec::new(),
        };
        assert(server.deep_view() =~= Self::capabilities().mcp_servers[0]) by {
            assert(server.args.deep_view() =~= Seq::empty());
            assert(server.allowed_for_steps.deep_view() =~= seq!["discover_dependencies"@]);
            assert(server.allowed_tools.deep_view() =~= Seq::empty());
        }
        let r = ModuleCapability {
            name: "python".to_owned(),
            config_files: vec!["pyproject.toml".to_owned()],
            build_system: "Python".to_owned(),
            language: "Python".to_owned(),
            source_extensions: vec!["py".to_owned()],
            supports_clean: true,
            supports_lint: true,
            supports_format: true,
            supports_fix: true,
            supports_flash: false,
            mcp_servers: vec![server],
        };
        assert(r.config_files.deep_view() =~= Self::capabilities().config_files);
        assert(r.source_extensions.deep_view() =~= Self::capabilities().source_extensions);
        assert(r.mcp_servers.deep_view() =~= Self::capabilities().mcp_servers);
        r
    }

    /// The files of a new project.
    pub open spec fn new_project(name: Seq<char>) -> ScaffoldOutputView {
        ScaffoldOutputView {
            build_file: "pyproject.toml"@,
            build_content: replaced("[project]\nname = \"__P__\"\nversion = \"0.1.0\"\nrequires-python = \">=3.11\"\ndependencies = []\n\n[build-system]\nrequires = [\"setuptools>=68\"]\nbuild-backend = \"setuptools.build_meta\"\n"@, "__P__"@, name),
            source_dir: Seq::empty(),
            source_file: "main.py"@,
            source_content: replaced("def main():\n    print(\"Hello from __P__!\")\n\nif __name__ == \"__main__\":\n    main()\n"@, "__P__"@, name),
            files: Seq::empty(),
            platform_targets: Seq::empty(),
            fill_roots: Seq::empty(),
            dependency_sections: Seq::empty(),
            structure: ProjectStructure::Native,
            embedded: false,
        }
    }

    /// The files of a new project.
    pub fn scaffold(&self, name: &str) -> (r: ScaffoldOutput)
        ensures
            r.deep_view() == Self::new_project(name@),
    {
        proof {
            reveal_strlit("__P__");
        }
        let mut r = ScaffoldOutput::default();
        r.build_file = "pyproject.toml".to_owned();
        r.build_content = replace("[project]\nname = \"__P__\"\nversion = \"0.1.0\"\nrequires-python = \">=3.11\"\ndependencies = []\n\n[build-system]\nrequires = [\"setuptools>=68\"]\nbuild-backend = \"setuptools.build_meta\"\n", "__P__", name);
        r.source_file = "main.py".to_owned();
        r.source_content = replace("def main():\n    print(\"Hello from __P__!\")\n\nif __name__ == \"__main__\":\n    main()\n", "__P__", name);
        assert(r.deep_view() =~= Self::new_project(name@));
        r
    }
}

impl Default for PythonBuildModule {
    fn default() -> (r: Self)
        ensures
            r == PythonBuildModule,
    {
        PythonBuildModule
    }
}

/// The directory is a build artifact.
pub open spec fn is_artifact(name: Seq<char>) -> bool {
    ||| name == "build"@
    ||| name == "dist"@
    ||| name == ".pytest_cache"@
    ||| name == "__pycache__"@
    ||| ends(name, ".egg-info"@)
}

/// Whether the directory is a build artifact that cleaning removes.
pub fn is_build_artifact(name: &str) -> (r: bool)
    ensures
        r == is_artifact(name@),
{
    same(name, "build") || same(name, "dist") || same(name, ".pytest_cache") || same(
        name,
        "__pycache__",
    ) || ends_with(name, ".egg-info")
}

/// One line on an artifact that was removed, or on why it was not.
pub open spec fn removal_line(path: Seq<char>, failure: Option<Seq<char>>) -> Seq<char> {
    match failure {
        None => path,
        Some(e) => path + " (failed: "@ + e + ")"@,
    }
}

/// One line on an artifact that was removed, or on why it was not.
pub fn report_removal(path: &str, failure: &Option<String>) -> (r: String)
    ensures
        r@ == removal_line(path@, failure.deep_view()),
{
    let mut s = path.to_owned();
    if let Some(e) = failure {
        s.append(" (failed: ");
        s.append(e.as_str());
        s.append(")");
    }
    s
}

/// How a clean ended, from the lines on the artifacts. It always succeeds.
pub fn clean_output(removed: &Vec<String>) -> (r: CommandOutput)
    ensures
        r.deep_view() == (CommandOutputView {
            success: true,
            command: "python clean (remove build artifacts)"@,
            output: if removed.deep_view().len() == 0 {
                "Nothing to clean"@
            } else {
                joined(removed.deep_view(), "\n"@)
            },
            exit_code: Some(0i32),
        }),
{
    let output = if removed.len() == 0 {
        "Nothing to clean".to_owned()
    } else {
        join(removed, "\n")
    };
    CommandOutput {
        success: true,
        command: "python clean (remove build artifacts)".to_owned(),
        output,
        exit_code: Some(0),
    }
}

} // verus!
