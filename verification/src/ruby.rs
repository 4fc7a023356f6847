//! Ruby projects: `Gemfile` analysis, commands and scaffold.

use vstd::prelude::*;

use crate::command::{refusal, refuse, CommandLine, CommandLineView, Plan, PlanView, Request};
use crate::source::{key_value_metadata, parse_key_value};
use crate::text::{replace, replaced};
use crate::types::{
    BuildMetadata, BuildMetadataView, ModuleCapability,
    ModuleCapabilityView, ProjectStructure, ScaffoldOutput, ScaffoldOutputView,
};

verus! {

/// The Ruby build module.
#[derive(Debug, Clone, Copy, PartialEq, Eq, Structural)]
pub struct RubyBuildModule;

impl RubyBuildModule {
    /// The module.
    pub fn new() -> (r: Self)
        ensures
            r == RubyBuildModule,
    {
        RubyBuildModule
    }

    /// What analysis finds in the configuration file.
    pub open spec fn metadata(root: Seq<char>, content: Seq<char>) -> BuildMetadataView {
        BuildMetadataView {
            build_system: "Bundler"@,
            project_type: "Ruby_project"@,
            ..key_value_metadata(root, "Gemfile"@, content, Seq::empty())
        }
    }

    /// Analyses a project from its `Gemfile`; the content is what reading it gave.
    pub fn analyze(&self, root: &str, content: &Result<String, String>) -> (r: Result<
        BuildMetadata,
        String,
    >)
        ensures
            (match content {
                Ok(c) => r matches Ok(m) && m.deep_view() == Self::metadata(root@, c@),
                Err(e) => r matches Err(m) && m@ == "Failed to read "@ + "Gemfile"@ + ": "@ + e@,
            }),
    {
        let whole = String::new();
        assert(whole@ =~= Seq::empty());
        match parse_key_value(root, "Gemfile", content, whole.as_str()) {
            Ok(found) => {
                let mut m = found;
                m.build_system = "Bundler".to_owned();
                m.project_type = "Ruby_project".to_owned();
                Ok(m)
            },
            Err(e) => Err(e),
        }
    }

    /// What is done about a request.
    pub open spec fn planned(request: Request) -> PlanView {
        match request {
            Request::Build => PlanView::Run(CommandLineView { program: "bundle"@, args: seq!["exec"@, "rake"@, "build"@] }),
            Request::Test => PlanView::Run(CommandLineView { program: "bundle"@, args: seq!["exec"@, "rspec"@] }),
            _ => refusal(request),
        }
    }

    /// What is done about a request.
    pub fn plan(&self, request: Request) -> (r: Plan)
        ensures
            r.deep_view() == Self::planned(request),
    {
        match request {
            Request::Build => {
                let args: Vec<String> = vec!["exec".to_owned(), "rake".to_owned(), "build".to_owned()];
                assert(args.deep_view() =~= seq!["exec"@, "rake"@, "build"@]);
                Plan::Run(CommandLine { program: "bundle".to_owned(), args })
            },
            Request::Test => {
                let args: Vec<String> = vec!["exec".to_owned(), "rspec".to_owned()];
                assert(args.deep_view() =~= seq!["exec"@, "rspec"@]);
                Plan::Run(CommandLine { program: "bundle".to_owned(), args })
            },
            _ => refuse(request),
        }
    }

    /// What the module can do.
    pub open spec fn capabilities() -> ModuleCapabilityView {
        ModuleCapabilityView {
            name: "ruby"@,
            config_files: seq!["Gemfile"@],
            build_system: "Bundler"@,
            language: "Ruby"@,
            source_extensions: seq!["rb"@],
            supports_clean: false,
            supports_lint: false,
            supports_format: false,
            supports_fix: false,
            supports_flash: false,
            mcp_servers: Seq::empty(),
        }
    }

    /// What the module can do.
    pub fn describe_capabilities(&self) -> (r: ModuleCapability)
        ensures
            r.deep_view() == Self::capabilities(),
    {
        let r = ModuleCapability {
            name: "ruby".to_owned(),
            config_files: vec!["Gemfile".to_owned()],
            build_system: "Bundler".to_owned(),
            language: "Ruby".to_owned(),
            source_extensions: vec!["rb".to_owned()],
            supports_clean: false,
            supports_lint: false,
            supports_format: false,
            supports_fix: false,
            supports_flash: false,
            mcp_servers: Vec::new(),
        };
        assert(r.config_files.deep_view() =~= Self::capabilities().config_files);
        assert(r.source_extensions.deep_view() =~= Self::capabilities().source_extensions);
        assert(r.mcp_servers.deep_view() =~= Self::capabilities().mcp_servers);
        r
    }

    /// The files of a new project.
    pub open spec fn new_project(name: Seq<char>) -> ScaffoldOutputView {
        ScaffoldOutputView {
            build_file: "Gemfile"@,
            build_content: replaced("source \"https://rubygems.org\"\ngem \"rake\"\n"@, "__P__"@, name),
            source_dir: Seq::empty(),
            source_file: "main.rb"@,
            source_content: replaced("puts \"Hello from __P__!\"\n"@, "__P__"@, name),
            files: Seq::empty(),
            platform_targets: Seq::empty(),
            fill_roots: Seq::empty(),
            dependency_sections: Seq::empty(),
            structure: ProjectStructure::Native,
            embedded: false,
        }
    }

    /// The files of a new project.
    pub fn scaffold(&self, name: &str) -> (r: ScaffoldOutput)
        ensures
            r.deep_view() == Self::new_project(name@),
    {
        proof {
            reveal_strlit("__P__");
        }
        let mut r = ScaffoldOutput::default();
        r.build_file = "Gemfile".to_owned();
        r.build_content = replace("source \"https://rubygems.org\"\ngem \"rake\"\n", "__P__", name);
        r.source_file = "main.rb".to_owned();
        r.source_content = replace("puts \"Hello from __P__!\"\n", "__P__", name);
        assert(r.deep_view() =~= Self::new_project(name@));
        r
    }
}

impl Default for RubyBuildModule {
    fn default() -> (r: Self)
        ensures
            r == RubyBuildModule,
    {
        RubyBuildModule
    }
}

} // verus!
