//! Go projects: `go.mod` analysis, commands and scaffold.

use vstd::prelude::*;

use crate::command::{refusal, refuse, CommandLine, CommandLineView, Plan, PlanView, Request};
use crate::source::{key_value_metadata, parse_key_value};
use crate::text::{replace, replaced};
use crate::types::{
    BuildMetadata, BuildMetadataView, McpServerDependency, McpServerDependencyView, ModuleCapability,
    ModuleCapabilityView, ProjectStructure, ScaffoldOutput, ScaffoldOutputView,
};

verus! {

/// The Go build module.
#[derive(Debug, Clone, Copy, PartialEq, Eq, Structural)]
pub struct GoBuildModule;

impl GoBuildModule {
    /// The module.
    pub fn new() -> (r: Self)
        ensures
            r == GoBuildModule,
    {
        GoBuildModule
    }

    /// What analysis finds in the configuration file.
    pub open spec fn metadata(root: Seq<char>, content: Seq<char>) -> BuildMetadataView {
        BuildMetadataView {
            build_system: "Go"@,
            project_type: "Go_project"@,
            ..key_value_metadata(root, "go.mod"@, content, Seq::empty())
        }
    }

    /// Analyses a project from its `go.mod`; the content is what reading it gave.
    pub fn analyze(&self, root: &str, content: &Result<String, String>) -> (r: Result<
        BuildMetadata,
        String,
    >)
        ensures
            (match content {
                Ok(c) => r matches Ok(m) && m.deep_view() == Self::metadata(root@, c@),
                Err(e) => r matches Err(m) && m@ == "Failed to read "@ + "go.mod"@ + ": "@ + e@,
            }),
    {
        let whole = String::new();
        assert(whole@ =~= Seq::empty());
        match parse_key_value(root, "go.mod", content, whole.as_str()) {
            Ok(found) => {
                let mut m = found;
                m.build_system = "Go".to_owned();
                m.project_type = "Go_project".to_owned();
                Ok(m)
            },
            Err(e) => Err(e),
        }
    }

    /// What is done about a request.
    pub open spec fn planned(request: Request) -> PlanView {
        match request {
            Request::Build => PlanView::Run(CommandLineView { program: "go"@, args: seq!["build"@, "./..."@] }),
            Request::Test => PlanView::Run(CommandLineView { program: "go"@, args: seq!["test"@, "./..."@] }),
            _ => refusal(request),
        }
    }

    /// What is done about a request.
    pub fn plan(&self, request: Request) -> (r: Plan)
        ensures
            r.deep_view() == Self::planned(request),
    {
        match request {
            Request::Build => {
                let args: Vec<String> = vec!["build".to_owned(), "./...".to_owned()];
                assert(args.deep_view() =~= seq!["build"@, "./..."@]);
                Plan::Run(CommandLine { program: "go".to_owned(), args })
            },
            Request::Test => {
                let args: Vec<String> = vec!["test".to_owned(), "./...".to_owned()];
                assert(args.deep_view() =~= seq!["test"@, "./..."@]);
                Plan::Run(CommandLine { program: "go".to_owned(), args })
            },
            _ => refuse(request),
        }
    }

    /// What the module can do.
    pub open spec fn capabilities() -> ModuleCapabilityView {
        ModuleCapabilityView {
            name: "go"@,
            config_files: seq!["go.mod"@],
            build_system: "Go"@,
            language: "Go"@,
            source_extensions: seq!["go"@],
            supports_clean: false,
            supports_lint: false,
            supports_format: false,
            supports_fix: false,
            supports_flash: false,
            mcp_servers: seq![McpServerDependencyView {
                name: "gomod-mcp"@,
                package: "gomod-mcp-server"@,
                install_command: "cargo install gomod-mcp-server"@,
                command: "gomod-mcp-server"@,
                args: Seq::empty(),
                autostart: false,
                build_type: Some("Go"@),
                allowed_for_steps: seq!["discover_dependencies"@],
                allowed_tools: Seq::empty(),
            }],
        }
    }

    /// What the module can do.
    pub fn describe_capabilities(&self) -> (r: ModuleCapability)
        ensures
            r.deep_view() == Self::capabilities(),
    {
        let server = McpServerDependency {
            name: "gomod-mcp".to_owned(),
            package: "gomod-mcp-server".to_owned(),
            install_command: "cargo install gomod-mcp-server".to_owned(),
            command: "gomod-mcp-server".to_owned(),
            args: Vec::new(),
            autostart: false,
            build_type: Some("Go".to_owned()),
            allowed_for_steps: vec!["discover_dependencies".to_owned()],
            allowed_tools: Vec::new(),
        };
        assert(server.deep_view() =~= Self::capabilities().mcp_servers[0]) by {
            assert(server.args.deep_view() =~= Seq::empty());
            assert(server.allowed_for_steps.deep_view() =~= seq!["discover_dependencies"@]);
            assert(server.allowed_tools.deep_view() =~= Seq::empty());
        }
        let r = ModuleCapability {
            name: "go".to_owned(),
            config_files: vec!["go.mod".to_owned()],
            build_system: "Go".to_owned(),
            language: "Go".to_owned(),
            source_extensions: vec!["go".to_owned()],
            supports_clean: false,
            supports_lint: false,
            supports_format: false,
            supports_fix: false,
            supports_flash: false,
            mcp_servers: vec![server],
        };
        assert(r.config_files.deep_view() =~= Self::capabilities().config_files);
        assert(r.source_extensions.deep_view() =~= Self::capabilities().source_extensions);
        assert(r.mcp_servers.deep_view() =~= Self::capabilities().mcp_servers);
        r
    }

    /// The files of a new project.
    pub open spec fn new_project(name: Seq<char>) -> ScaffoldOutputView {
        ScaffoldOutputView {
            build_file: "go.mod"@,
            build_content: replaced("module __P__\n\ngo 1.22\n"@, "__P__"@, name),
            source_dir: Seq::empty(),
            source_file: "main.go"@,
            source_content: replaced("package main\n\nimport \"fmt\"\n\nfunc main() {\n    fmt.Println(\"Hello from __P__!\")\n}\n"@, "__P__"@, name),
            files: Seq::empty(),
            platform_targets: Seq::empty(),
            fill_roots: Seq::empty(),
            dependency_sections: Seq::empty(),
            structure: ProjectStructure::Native,
            embedded: false,
        }
    }

    /// The files of a new project.
    pub fn scaffold(&self, name: &str) -> (r: ScaffoldOutput)
        ensures
            r.deep_view() == Self::new_project(name@),
    {
        proof {
            reveal_strlit("__P__");
        }
        let mut r = ScaffoldOutput::default();
        r.build_file = "go.mod".to_owned();
        r.build_content = replace("module __P__\n\ngo 1.22\n", "__P__", name);
        r.source_file = "main.go".to_owned();
        r.source_content = replace("package main\n\nimport \"fmt\"\n\nfunc main() {\n    fmt.Println(\"Hello from __P__!\")\n}\n", "__P__", name);
        assert(r.deep_view() =~= Self::new_project(name@));
        r
    }
}

impl Default for GoBuildModule {
    fn default() -> (r: Self)
        ensures
            r == GoBuildModule,
    {
        GoBuildModule
    }
}

} // verus!
