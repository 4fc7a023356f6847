//! Make projects: `Makefile` analysis, commands and scaffold.

use vstd::prelude::*;

use crate::command::{refusal, refuse, CommandLine, CommandLineView, Plan, PlanView, Request};
use crate::source::{key_value_metadata, parse_key_value};
use crate::text::{replace, replaced};
use crate::types::{
    BuildMetadata, BuildMetadataView, ModuleCapability,
    ModuleCapabilityView, ProjectStructure, ScaffoldOutput, ScaffoldOutputView,
};

verus! {

/// The Make build module.
#[derive(Debug, Clone, Copy, PartialEq, Eq, Structural)]
pub struct MakeBuildModule;

impl MakeBuildModule {
    /// The module.
    pub fn new() -> (r: Self)
        ensures
            r == MakeBuildModule,
    {
        MakeBuildModule
    }

    /// What analysis finds in the configuration file.
    pub open spec fn metadata(root: Seq<char>, content: Seq<char>) -> BuildMetadataView {
        BuildMetadataView {
            build_system: "Make"@,
            project_type: "Make_project"@,
            ..key_value_metadata(root, "Makefile"@, content, Seq::empty())
        }
    }

    /// Analyses a project from its `Makefile`; the content is what reading it gave.
    pub fn analyze(&self, root: &str, content: &Result<String, String>) -> (r: Result<
        BuildMetadata,
        String,
    >)
        ensures
            (match content {
                Ok(c) => r matches Ok(m) && m.deep_view() == Self::metadata(root@, c@),
                Err(e) => r matches Err(m) && m@ == "Failed to read "@ + "Makefile"@ + ": "@ + e@,
            }),
    {
        let whole = String::new();
        assert(whole@ =~= Seq::empty());
        match parse_key_value(root, "Makefile", content, whole.as_str()) {
            Ok(found) => {
                let mut m = found;
                m.build_system = "Make".to_owned();
                m.project_type = "Make_project".to_owned();
                Ok(m)
            },
            Err(e) => Err(e),
        }
    }

    /// What is done about a request.
    pub open spec fn planned(request: Request) -> PlanView {
        match request {
            Request::Build => PlanView::Run(CommandLineView { program: "make"@, args: seq!["build"@] }),
            Request::Test => PlanView::Run(CommandLineView { program: "make"@, args: seq!["test"@] }),
            _ => refusal(request),
        }
    }

    /// What is done about a request.
    pub fn plan(&self, request: Request) -> (r: Plan)
        ensures
            r.deep_view() == Self::planned(request),
    {
        match request {
            Request::Build => {
                let args: Vec<String> = vec!["build".to_owned()];
                assert(args.deep_view() =~= seq!["build"@]);
                Plan::Run(CommandLine { program: "make".to_owned(), args })
            },
            Request::Test => {
                let args: Vec<String> = vec!["test".to_owned()];
                assert(args.deep_view() =~= seq!["test"@]);
                Plan::Run(CommandLine { program: "make".to_owned(), args })
            },
            _ => refuse(request),
        }
    }

    /// What the module can do.
    pub open spec fn capabilities() -> ModuleCapabilityView {
        ModuleCapabilityView {
            name: "make"@,
            config_files: seq!["Makefile"@],
            build_system: "Make"@,
            language: "C"@,
            source_extensions: seq!["c"@, "cpp"@, "h"@, "hpp"@],
            supports_clean: false,
            supports_lint: false,
            supports_format: false,
            supports_fix: false,
            supports_flash: false,
            mcp_servers: Seq::empty(),
        }
    }

    /// What the module can do.
    pub fn describe_capabilities(&self) -> (r: ModuleCapability)
        ensures
            r.deep_view() == Self::capabilities(),
    {
        let r = ModuleCapability {
            name: "make".to_owned(),
            config_files: vec!["Makefile".to_owned()],
            build_system: "Make".to_owned(),
            language: "C".to_owned(),
            source_extensions: vec!["c".to_owned(), "cpp".to_owned(), "h".to_owned(), "hpp".to_owned()],
            supports_clean: false,
            supports_lint: false,
            supports_format: false,
            supports_fix: false,
            supports_flash: false,
            mcp_servers: Vec::new(),
        };
        assert(r.config_files.deep_view() =~= Self::capabilities().config_files);
        assert(r.source_extensions.deep_view() =~= Self::capabilities().source_extensions);
        assert(r.mcp_servers.deep_view() =~= Self::capabilities().mcp_servers);
        r
    }

    /// The files of a new project.
    pub open spec fn new_project(name: Seq<char>) -> ScaffoldOutputView {
        ScaffoldOutputView {
            build_file: "Makefile"@,
            build_content: replaced("$(CC) -std=c++17 src/main.cpp -o __P__\n"@, "__P__"@, name),
            source_dir: "src"@,
            source_file: "main.cpp"@,
            source_content: replaced("#include <iostream>\nint main() {\n    std::cout << \"Hello from __P__!\" << std::endl;\n    return 0;\n}\n"@, "__P__"@, name),
            files: Seq::empty(),
            platform_targets: Seq::empty(),
            fill_roots: Seq::empty(),
            dependency_sections: Seq::empty(),
            structure: ProjectStructure::Native,
            embedded: false,
        }
    }

    /// The files of a new project.
    pub fn scaffold(&self, name: &str) -> (r: ScaffoldOutput)
        ensures
            r.deep_view() == Self::new_project(name@),
    {
        proof {
            reveal_strlit("__P__");
        }
        let mut r = ScaffoldOutput::default();
        r.build_file = "Makefile".to_owned();
        r.build_content = replace("$(CC) -std=c++17 src/main.cpp -o __P__\n", "__P__", name);
        r.source_dir = "src".to_owned();
        r.source_file = "main.cpp".to_owned();
        r.source_content = replace("#include <iostream>\nint main() {\n    std::cout << \"Hello from __P__!\" << std::endl;\n    return 0;\n}\n", "__P__", name);
        assert(r.deep_view() =~= Self::new_project(name@));
        r
    }
}

impl Default for MakeBuildModule {
    fn default() -> (r: Self)
        ensures
            r == MakeBuildModule,
    {
        MakeBuildModule
    }
}

} // verus!
