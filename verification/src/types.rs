//! The data that analysis, builds and scaffolds exchange.

use vstd::prelude::*;

use crate::docs::{copy_hal_docs, HalDoc, HalDocView};
use crate::text::{add_item, copy_text_option, copy_texts, same};

verus! {

/// The structural shape of a project.
#[derive(Debug, Clone, Copy, PartialEq, Eq, Structural)]
pub enum ProjectStructure {
    /// One project for the host.
    Native,
    /// Several platforms, one set of sources.
    SingleSource,
    /// Contracts with one implementation per platform.
    Hal,
    /// A Rust core with a SwiftUI application.
    SpireApp,
}

impl ProjectStructure {
    /// The value that stands where none is given.
    pub open spec fn initial() -> Self {
        ProjectStructure::Native
    }
}

impl Default for ProjectStructure {
    fn default() -> (r: Self)
        ensures
            r == ProjectStructure::Native,
    {
        ProjectStructure::Native
    }
}

/// What a group of sources is for.
#[derive(Debug, Clone, Copy, PartialEq, Eq, Structural)]
pub enum SourceRole {
    /// The application.
    App,
    /// A platform's implementation of the contracts.
    HalImplementation,
    /// The shared toolkit.
    Shared,
}

impl SourceRole {
    /// The value that stands where none is given.
    pub open spec fn initial() -> Self {
        SourceRole::App
    }
}

impl Default for SourceRole {
    fn default() -> (r: Self)
        ensures
            r == SourceRole::App,
    {
        SourceRole::App
    }
}

/// How the sources of a target are put together.
#[derive(Debug, Clone, Copy, PartialEq, Eq, Structural)]
pub enum SourceKind {
    /// From one place.
    Single,
    /// From several places.
    Composite,
}

impl SourceKind {
    /// The value that stands where none is given.
    pub open spec fn initial() -> Self {
        SourceKind::Single
    }
}

impl Default for SourceKind {
    fn default() -> (r: Self)
        ensures
            r == SourceKind::Single,
    {
        SourceKind::Single
    }
}

/// How a slice of a project may be edited.
#[derive(Debug, Clone, Copy, PartialEq, Eq, Structural)]
pub enum DomainEditability {
    /// Shared sources, open to edits.
    Shared,
    /// Sources to be filled in.
    Fillable,
}

impl DomainEditability {
    /// The value that stands where none is given.
    pub open spec fn initial() -> Self {
        DomainEditability::Shared
    }
}

impl Default for DomainEditability {
    fn default() -> (r: Self)
        ensures
            r == DomainEditability::Shared,
    {
        DomainEditability::Shared
    }
}

/// Whether the shape is the one that needs no mention.
pub fn is_native_structure(s: &ProjectStructure) -> (r: bool)
    ensures
        r == (*s == ProjectStructure::Native),
{
    *s == ProjectStructure::Native
}

/// The value of a switch that is on unless it is turned off.
pub fn default_true() -> (r: bool)
    ensures
        r,
{
    true
}

/// One dependency of a project or target.
#[derive(Debug, PartialEq, Eq)]
pub struct Dependency {
    pub name: String,
    pub version: Option<String>,
    pub version_req: Option<String>,
    /// `normal` or `dev`.
    pub kind: Option<String>,
    pub source: Option<String>,
    pub source_url: Option<String>,
    pub features: Option<String>,
    /// `shared` or `platform`.
    pub scope: Option<String>,
}

/// What a [`Dependency`] holds.
#[verifier::ext_equal]
pub struct DependencyView {
    pub name: Seq<char>,
    pub version: Option<Seq<char>>,
    pub version_req: Option<Seq<char>>,
    pub kind: Option<Seq<char>>,
    pub source: Option<Seq<char>>,
    pub source_url: Option<Seq<char>>,
    pub features: Option<Seq<char>>,
    pub scope: Option<Seq<char>>,
}

impl DeepView for Dependency {
    type V = DependencyView;

    open spec fn deep_view(&self) -> DependencyView {
        DependencyView {
            name: self.name@,
            version: self.version.deep_view(),
            version_req: self.version_req.deep_view(),
            kind: self.kind.deep_view(),
            source: self.source.deep_view(),
            source_url: self.source_url.deep_view(),
            features: self.features.deep_view(),
            scope: self.scope.deep_view(),
        }
    }
}

impl Clone for Dependency {
    fn clone(&self) -> (r: Self)
        ensures
            r.deep_view() == self.deep_view(),
    {
        Dependency {
            name: self.name.clone(),
            version: copy_text_option(&self.version),
            version_req: copy_text_option(&self.version_req),
            kind: copy_text_option(&self.kind),
            source: copy_text_option(&self.source),
            source_url: copy_text_option(&self.source_url),
            features: copy_text_option(&self.features),
            scope: copy_text_option(&self.scope),
        }
    }
}

/// A copy of a list of [`Dependency`] values.
pub fn copy_dependencies(v: &Vec<Dependency>) -> (r: Vec<Dependency>)
    ensures
        r.deep_view() == v.deep_view(),
{
    let mut out: Vec<Dependency> = Vec::new();
    let mut i: usize = 0;
    while i < v.len()
        invariant
            i <= v@.len(),
            out.deep_view() == v.deep_view().take(i as int),
        decreases v@.len() - i,
    {
        add_item(&mut out, v[i].clone());
        assert(v.deep_view().take(i + 1) =~= v.deep_view().take(i as int).push(v[i as int].deep_view()));
        i = i + 1;
    }
    assert(v.deep_view().take(v@.len() as int) =~= v.deep_view());
    out
}

impl Default for Dependency {
    fn default() -> (r: Self)
        ensures
            r.deep_view() == (DependencyView {
                name: Seq::empty(),
                version: None,
                version_req: None,
                kind: None,
                source: None,
                source_url: None,
                features: None,
                scope: None,
            }),
    {
        Dependency {
            name: String::new(),
            version: None,
            version_req: None,
            kind: None,
            source: None,
            source_url: None,
            features: None,
            scope: None,
        }
    }
}

/// A group of sources of a target.
#[derive(Debug, PartialEq, Eq)]
pub struct SourceUnit {
    pub role: SourceRole,
    pub path: String,
    pub language: String,
}

/// What a [`SourceUnit`] holds.
#[verifier::ext_equal]
pub struct SourceUnitView {
    pub role: SourceRole,
    pub path: Seq<char>,
    pub language: Seq<char>,
}

impl DeepView for SourceUnit {
    type V = SourceUnitView;

    open spec fn deep_view(&self) -> SourceUnitView {
        SourceUnitView {
            role: self.role,
            path: self.path@,
            language: self.language@,
        }
    }
}

impl Clone for SourceUnit {
    fn clone(&self) -> (r: Self)
        ensures
            r.deep_view() == self.deep_view(),
    {
        SourceUnit {
            role: self.role,
            path: self.path.clone(),
            language: self.language.clone(),
        }
    }
}

/// A copy of a list of [`SourceUnit`] values.
pub fn copy_source_units(v: &Vec<SourceUnit>) -> (r: Vec<SourceUnit>)
    ensures
        r.deep_view() == v.deep_view(),
{
    let mut out: Vec<SourceUnit> = Vec::new();
    let mut i: usize = 0;
    while i < v.len()
        invariant
            i <= v@.len(),
            out.deep_view() == v.deep_view().take(i as int),
        decreases v@.len() - i,
    {
        add_item(&mut out, v[i].clone());
        assert(v.deep_view().take(i + 1) =~= v.deep_view().take(i as int).push(v[i as int].deep_view()));
        i = i + 1;
    }
    assert(v.deep_view().take(v@.len() as int) =~= v.deep_view());
    out
}

/// One command as a target runs it.
#[derive(Debug, PartialEq, Eq)]
pub struct BuildSpec {
    pub command: String,
    pub arguments: Vec<String>,
    /// Environment variables and their values.
    pub env: Vec<(String, String)>,
    /// The directory below the project to run in; empty for the project itself.
    pub working_dir: String,
}

/// What a [`BuildSpec`] holds.
#[verifier::ext_equal]
pub struct BuildSpecView {
    pub command: Seq<char>,
    pub arguments: Seq<Seq<char>>,
    pub env: Seq<(Seq<char>, Seq<char>)>,
    pub working_dir: Seq<char>,
}

impl DeepView for BuildSpec {
    type V = BuildSpecView;

    open spec fn deep_view(&self) -> BuildSpecView {
        BuildSpecView {
            command: self.command@,
            arguments: self.arguments.deep_view(),
            env: self.env.deep_view(),
            working_dir: self.working_dir@,
        }
    }
}

/// A copy of a list of pairs.
pub fn copy_pairs(v: &Vec<(String, String)>) -> (r: Vec<(String, String)>)
    ensures
        r.deep_view() == v.deep_view(),
{
    let mut out: Vec<(String, String)> = Vec::new();
    let mut i: usize = 0;
    while i < v.len()
        invariant
            i <= v@.len(),
            out.deep_view() == v.deep_view().take(i as int),
        decreases v@.len() - i,
    {
        add_item(&mut out, (v[i].0.clone(), v[i].1.clone()));
        assert(v.deep_view()[i as int] == (v[i as int].0@, v[i as int].1@));
        assert(v.deep_view().take(i + 1) =~= v.deep_view().take(i as int).push(
            v.deep_view()[i as int],
        ));
        i = i + 1;
    }
    assert(v.deep_view().take(v@.len() as int) =~= v.deep_view());
    out
}

impl Clone for BuildSpec {
    fn clone(&self) -> (r: Self)
        ensures
            r.deep_view() == self.deep_view(),
    {
        BuildSpec {
            command: self.command.clone(),
            arguments: copy_texts(&self.arguments),
            env: copy_pairs(&self.env),
            working_dir: self.working_dir.clone(),
        }
    }
}

/// One thing that a project builds.
#[derive(Debug, PartialEq, Eq)]
pub struct BuildTarget {
    pub name: String,
    pub kind: Vec<String>,
    pub source_path: Option<String>,
    pub source_files: Vec<String>,
    pub dependencies: Vec<Dependency>,
    pub platform: String,
    pub source_kind: SourceKind,
    pub source_units: Vec<SourceUnit>,
    pub build_spec: Option<BuildSpec>,
}

/// What a [`BuildTarget`] holds.
#[verifier::ext_equal]
pub struct BuildTargetView {
    pub name: Seq<char>,
    pub kind: Seq<Seq<char>>,
    pub source_path: Option<Seq<char>>,
    pub source_files: Seq<Seq<char>>,
    pub dependencies: Seq<DependencyView>,
    pub platform: Seq<char>,
    pub source_kind: SourceKind,
    pub source_units: Seq<SourceUnitView>,
    pub build_spec: Option<BuildSpecView>,
}

impl DeepView for BuildTarget {
    type V = BuildTargetView;

    open spec fn deep_view(&self) -> BuildTargetView {
        BuildTargetView {
            name: self.name@,
            kind: self.kind.deep_view(),
            source_path: self.source_path.deep_view(),
            source_files: self.source_files.deep_view(),
            dependencies: self.dependencies.deep_view(),
            platform: self.platform@,
            source_kind: self.source_kind,
            source_units: self.source_units.deep_view(),
            build_spec: self.build_spec.deep_view(),
        }
    }
}

impl Clone for BuildTarget {
    fn clone(&self) -> (r: Self)
        ensures
            r.deep_view() == self.deep_view(),
    {
        BuildTarget {
            name: self.name.clone(),
            kind: copy_texts(&self.kind),
            source_path: copy_text_option(&self.source_path),
            source_files: copy_texts(&self.source_files),
            dependencies: copy_dependencies(&self.dependencies),
            platform: self.platform.clone(),
            source_kind: self.source_kind,
            source_units: copy_source_units(&self.source_units),
            build_spec: match &self.build_spec {
                Some(x) => Some(x.clone()),
                None => None,
            },
        }
    }
}

/// A copy of a list of [`BuildTarget`] values.
pub fn copy_build_targets(v: &Vec<BuildTarget>) -> (r: Vec<BuildTarget>)
    ensures
        r.deep_view() == v.deep_view(),
{
    let mut out: Vec<BuildTarget> = Vec::new();
    let mut i: usize = 0;
    while i < v.len()
        invariant
            i <= v@.len(),
            out.deep_view() == v.deep_view().take(i as int),
        decreases v@.len() - i,
    {
        add_item(&mut out, v[i].clone());
        assert(v.deep_view().take(i + 1) =~= v.deep_view().take(i as int).push(v[i as int].deep_view()));
        i = i + 1;
    }
    assert(v.deep_view().take(v@.len() as int) =~= v.deep_view());
    out
}

impl Default for BuildTarget {
    fn default() -> (r: Self)
        ensures
            r.deep_view() == (BuildTargetView {
                name: Seq::empty(),
                kind: Seq::empty(),
                source_path: None,
                source_files: Seq::empty(),
                dependencies: Seq::empty(),
                platform: Seq::empty(),
                source_kind: SourceKind::initial(),
                source_units: Seq::empty(),
                build_spec: None,
            }),
    {
        BuildTarget {
            name: String::new(),
            kind: Vec::new(),
            source_path: None,
            source_files: Vec::new(),
            dependencies: Vec::new(),
            platform: String::new(),
            source_kind: SourceKind::default(),
            source_units: Vec::new(),
            build_spec: None,
        }
    }
}

/// One HAL contract and the platforms that implement it.
#[derive(Debug, PartialEq, Eq)]
pub struct HalInterface {
    pub name: String,
    pub header_path: String,
    pub implementations: Vec<String>,
}

/// What a [`HalInterface`] holds.
#[verifier::ext_equal]
pub struct HalInterfaceView {
    pub name: Seq<char>,
    pub header_path: Seq<char>,
    pub implementations: Seq<Seq<char>>,
}

impl DeepView for HalInterface {
    type V = HalInterfaceView;

    open spec fn deep_view(&self) -> HalInterfaceView {
        HalInterfaceView {
            name: self.name@,
            header_path: self.header_path@,
            implementations: self.implementations.deep_view(),
        }
    }
}

impl Clone for HalInterface {
    fn clone(&self) -> (r: Self)
        ensures
            r.deep_view() == self.deep_view(),
    {
        HalInterface {
            name: self.name.clone(),
            header_path: self.header_path.clone(),
            implementations: copy_texts(&self.implementations),
        }
    }
}

/// A copy of a list of [`HalInterface`] values.
pub fn copy_hal_interfaces(v: &Vec<HalInterface>) -> (r: Vec<HalInterface>)
    ensures
        r.deep_view() == v.deep_view(),
{
    let mut out: Vec<HalInterface> = Vec::new();
    let mut i: usize = 0;
    while i < v.len()
        invariant
            i <= v@.len(),
            out.deep_view() == v.deep_view().take(i as int),
        decreases v@.len() - i,
    {
        add_item(&mut out, v[i].clone());
        assert(v.deep_view().take(i + 1) =~= v.deep_view().take(i as int).push(v[i as int].deep_view()));
        i = i + 1;
    }
    assert(v.deep_view().take(v@.len() as int) =~= v.deep_view());
    out
}

/// One structural problem that analysis found.
#[derive(Debug, PartialEq, Eq)]
pub struct BuildIssue {
    pub severity: String,
    pub kind: String,
    pub message: String,
}

/// What a [`BuildIssue`] holds.
#[verifier::ext_equal]
pub struct BuildIssueView {
    pub severity: Seq<char>,
    pub kind: Seq<char>,
    pub message: Seq<char>,
}

impl DeepView for BuildIssue {
    type V = BuildIssueView;

    open spec fn deep_view(&self) -> BuildIssueView {
        BuildIssueView {
            severity: self.severity@,
            kind: self.kind@,
            message: self.message@,
        }
    }
}

impl Clone for BuildIssue {
    fn clone(&self) -> (r: Self)
        ensures
            r.deep_view() == self.deep_view(),
    {
        BuildIssue {
            severity: self.severity.clone(),
            kind: self.kind.clone(),
            message: self.message.clone(),
        }
    }
}

/// A copy of a list of [`BuildIssue`] values.
pub fn copy_build_issues(v: &Vec<BuildIssue>) -> (r: Vec<BuildIssue>)
    ensures
        r.deep_view() == v.deep_view(),
{
    let mut out: Vec<BuildIssue> = Vec::new();
    let mut i: usize = 0;
    while i < v.len()
        invariant
            i <= v@.len(),
            out.deep_view() == v.deep_view().take(i as int),
        decreases v@.len() - i,
    {
        add_item(&mut out, v[i].clone());
        assert(v.deep_view().take(i + 1) =~= v.deep_view().take(i as int).push(v[i as int].deep_view()));
        i = i + 1;
    }
    assert(v.deep_view().take(v@.len() as int) =~= v.deep_view());
    out
}

/// A named slice of a project.
#[derive(Debug, PartialEq, Eq)]
pub struct ProjectDomain {
    pub id: String,
    pub name: String,
    /// `common` or `platform`.
    pub kind: String,
    pub files: Vec<String>,
    pub dependencies: Vec<Dependency>,
    pub build_spec: Option<BuildSpec>,
    pub editability: DomainEditability,
    pub contracts: Vec<String>,
}

/// What a [`ProjectDomain`] holds.
#[verifier::ext_equal]
pub struct ProjectDomainView {
    pub id: Seq<char>,
    pub name: Seq<char>,
    pub kind: Seq<char>,
    pub files: Seq<Seq<char>>,
    pub dependencies: Seq<DependencyView>,
    pub build_spec: Option<BuildSpecView>,
    pub editability: DomainEditability,
    pub contracts: Seq<Seq<char>>,
}

impl DeepView for ProjectDomain {
    type V = ProjectDomainView;

    open spec fn deep_view(&self) -> ProjectDomainView {
        ProjectDomainView {
            id: self.id@,
            name: self.name@,
            kind: self.kind@,
            files: self.files.deep_view(),
            dependencies: self.dependencies.deep_view(),
            build_spec: self.build_spec.deep_view(),
            editability: self.editability,
            contracts: self.contracts.deep_view(),
        }
    }
}

impl Clone for ProjectDomain {
    fn clone(&self) -> (r: Self)
        ensures
            r.deep_view() == self.deep_view(),
    {
        ProjectDomain {
            id: self.id.clone(),
            name: self.name.clone(),
            kind: self.kind.clone(),
            files: copy_texts(&self.files),
            dependencies: copy_dependencies(&self.dependencies),
            build_spec: match &self.build_spec {
                Some(x) => Some(x.clone()),
                None => None,
            },
            editability: self.editability,
            contracts: copy_texts(&self.contracts),
        }
    }
}

/// A copy of a list of [`ProjectDomain`] values.
pub fn copy_project_domains(v: &Vec<ProjectDomain>) -> (r: Vec<ProjectDomain>)
    ensures
        r.deep_view() == v.deep_view(),
{
    let mut out: Vec<ProjectDomain> = Vec::new();
    let mut i: usize = 0;
    while i < v.len()
        invariant
            i <= v@.len(),
            out.deep_view() == v.deep_view().take(i as int),
        decreases v@.len() - i,
    {
        add_item(&mut out, v[i].clone());
        assert(v.deep_view().take(i + 1) =~= v.deep_view().take(i as int).push(v[i as int].deep_view()));
        i = i + 1;
    }
    assert(v.deep_view().take(v@.len() as int) =~= v.deep_view());
    out
}

/// One member of a workspace.
#[derive(Debug, PartialEq, Eq)]
pub struct WorkspaceMember {
    pub name: String,
    pub path: String,
    pub version: Option<String>,
}

/// What a [`WorkspaceMember`] holds.
#[verifier::ext_equal]
pub struct WorkspaceMemberView {
    pub name: Seq<char>,
    pub path: Seq<char>,
    pub version: Option<Seq<char>>,
}

impl DeepView for WorkspaceMember {
    type V = WorkspaceMemberView;

    open spec fn deep_view(&self) -> WorkspaceMemberView {
        WorkspaceMemberView {
            name: self.name@,
            path: self.path@,
            version: self.version.deep_view(),
        }
    }
}

impl Clone for WorkspaceMember {
    fn clone(&self) -> (r: Self)
        ensures
            r.deep_view() == self.deep_view(),
    {
        WorkspaceMember {
            name: self.name.clone(),
            path: self.path.clone(),
            version: copy_text_option(&self.version),
        }
    }
}

/// A copy of a list of [`WorkspaceMember`] values.
pub fn copy_workspace_members(v: &Vec<WorkspaceMember>) -> (r: Vec<WorkspaceMember>)
    ensures
        r.deep_view() == v.deep_view(),
{
    let mut out: Vec<WorkspaceMember> = Vec::new();
    let mut i: usize = 0;
    while i < v.len()
        invariant
            i <= v@.len(),
            out.deep_view() == v.deep_view().take(i as int),
        decreases v@.len() - i,
    {
        add_item(&mut out, v[i].clone());
        assert(v.deep_view().take(i + 1) =~= v.deep_view().take(i as int).push(v[i as int].deep_view()));
        i = i + 1;
    }
    assert(v.deep_view().take(v@.len() as int) =~= v.deep_view());
    out
}

/// A tool call that runs a script.
#[derive(Debug, PartialEq, Eq)]
pub struct ToolCall {
    pub tool: String,
    pub mode: String,
    pub command: String,
    pub build_system: String,
}

/// What a [`ToolCall`] holds.
#[verifier::ext_equal]
pub struct ToolCallView {
    pub tool: Seq<char>,
    pub mode: Seq<char>,
    pub command: Seq<char>,
    pub build_system: Seq<char>,
}

impl DeepView for ToolCall {
    type V = ToolCallView;

    open spec fn deep_view(&self) -> ToolCallView {
        ToolCallView {
            tool: self.tool@,
            mode: self.mode@,
            command: self.command@,
            build_system: self.build_system@,
        }
    }
}

impl Clone for ToolCall {
    fn clone(&self) -> (r: Self)
        ensures
            r.deep_view() == self.deep_view(),
    {
        ToolCall {
            tool: self.tool.clone(),
            mode: self.mode.clone(),
            command: self.command.clone(),
            build_system: self.build_system.clone(),
        }
    }
}

/// One named script of a project.
#[derive(Debug, PartialEq, Eq)]
pub struct BuildScript {
    pub name: String,
    pub command: String,
    pub tool_call: Option<ToolCall>,
}

/// What a [`BuildScript`] holds.
#[verifier::ext_equal]
pub struct BuildScriptView {
    pub name: Seq<char>,
    pub command: Seq<char>,
    pub tool_call: Option<ToolCallView>,
}

impl DeepView for BuildScript {
    type V = BuildScriptView;

    open spec fn deep_view(&self) -> BuildScriptView {
        BuildScriptView {
            name: self.name@,
            command: self.command@,
            tool_call: self.tool_call.deep_view(),
        }
    }
}

impl Clone for BuildScript {
    fn clone(&self) -> (r: Self)
        ensures
            r.deep_view() == self.deep_view(),
    {
        BuildScript {
            name: self.name.clone(),
            command: self.command.clone(),
            tool_call: match &self.tool_call {
                Some(x) => Some(x.clone()),
                None => None,
            },
        }
    }
}

/// A copy of a list of [`BuildScript`] values.
pub fn copy_build_scripts(v: &Vec<BuildScript>) -> (r: Vec<BuildScript>)
    ensures
        r.deep_view() == v.deep_view(),
{
    let mut out: Vec<BuildScript> = Vec::new();
    let mut i: usize = 0;
    while i < v.len()
        invariant
            i <= v@.len(),
            out.deep_view() == v.deep_view().take(i as int),
        decreases v@.len() - i,
    {
        add_item(&mut out, v[i].clone());
        assert(v.deep_view().take(i + 1) =~= v.deep_view().take(i as int).push(v[i as int].deep_view()));
        i = i + 1;
    }
    assert(v.deep_view().take(v@.len() as int) =~= v.deep_view());
    out
}

/// What analysis finds out about a project.
#[derive(Debug, PartialEq, Eq)]
pub struct BuildMetadata {
    pub project_name: Option<String>,
    pub description: Option<String>,
    pub version: Option<String>,
    pub project_type: String,
    pub build_system: String,
    pub is_workspace: bool,
    pub workspace_members: Vec<WorkspaceMember>,
    pub scripts: Vec<BuildScript>,
    pub dependencies: Vec<Dependency>,
    pub targets: Vec<BuildTarget>,
    pub config_files: Vec<String>,
    pub project_path: Option<String>,
    pub platform_targets: Vec<String>,
    pub structure: ProjectStructure,
    pub domains: Vec<ProjectDomain>,
    pub hal_interfaces: Vec<HalInterface>,
    pub issues: Vec<BuildIssue>,
    /// The text of the configuration file, where it is kept.
    pub raw: Option<String>,
}

/// What a [`BuildMetadata`] holds.
#[verifier::ext_equal]
pub struct BuildMetadataView {
    pub project_name: Option<Seq<char>>,
    pub description: Option<Seq<char>>,
    pub version: Option<Seq<char>>,
    pub project_type: Seq<char>,
    pub build_system: Seq<char>,
    pub is_workspace: bool,
    pub workspace_members: Seq<WorkspaceMemberView>,
    pub scripts: Seq<BuildScriptView>,
    pub dependencies: Seq<DependencyView>,
    pub targets: Seq<BuildTargetView>,
    pub config_files: Seq<Seq<char>>,
    pub project_path: Option<Seq<char>>,
    pub platform_targets: Seq<Seq<char>>,
    pub structure: ProjectStructure,
    pub domains: Seq<ProjectDomainView>,
    pub hal_interfaces: Seq<HalInterfaceView>,
    pub issues: Seq<BuildIssueView>,
    pub raw: Option<Seq<char>>,
}

impl DeepView for BuildMetadata {
    type V = BuildMetadataView;

    open spec fn deep_view(&self) -> BuildMetadataView {
        BuildMetadataView {
            project_name: self.project_name.deep_view(),
            description: self.description.deep_view(),
            version: self.version.deep_view(),
            project_type: self.project_type@,
            build_system: self.build_system@,
            is_workspace: self.is_workspace,
            workspace_members: self.workspace_members.deep_view(),
            scripts: self.scripts.deep_view(),
            dependencies: self.dependencies.deep_view(),
            targets: self.targets.deep_view(),
            config_files: self.config_files.deep_view(),
            project_path: self.project_path.deep_view(),
            platform_targets: self.platform_targets.deep_view(),
            structure: self.structure,
            domains: self.domains.deep_view(),
            hal_interfaces: self.hal_interfaces.deep_view(),
            issues: self.issues.deep_view(),
            raw: self.raw.deep_view(),
        }
    }
}

impl Clone for BuildMetadata {
    fn clone(&self) -> (r: Self)
        ensures
            r.deep_view() == self.deep_view(),
    {
        BuildMetadata {
            project_name: copy_text_option(&self.project_name),
            description: copy_text_option(&self.description),
            version: copy_text_option(&self.version),
            project_type: self.project_type.clone(),
            build_system: self.build_system.clone(),
            is_workspace: self.is_workspace,
            workspace_members: copy_workspace_members(&self.workspace_members),
            scripts: copy_build_scripts(&self.scripts),
            dependencies: copy_dependencies(&self.dependencies),
            targets: copy_build_targets(&self.targets),
            config_files: copy_texts(&self.config_files),
            project_path: copy_text_option(&self.project_path),
            platform_targets: copy_texts(&self.platform_targets),
            structure: self.structure,
            domains: copy_project_domains(&self.domains),
            hal_interfaces: copy_hal_interfaces(&self.hal_interfaces),
            issues: copy_build_issues(&self.issues),
            raw: copy_text_option(&self.raw),
        }
    }
}

impl Default for BuildMetadata {
    fn default() -> (r: Self)
        ensures
            r.deep_view() == (BuildMetadataView {
                project_name: None,
                description: None,
                version: None,
                project_type: Seq::empty(),
                build_system: Seq::empty(),
                is_workspace: false,
                workspace_members: Seq::empty(),
                scripts: Seq::empty(),
                dependencies: Seq::empty(),
                targets: Seq::empty(),
                config_files: Seq::empty(),
                project_path: None,
                platform_targets: Seq::empty(),
                structure: ProjectStructure::initial(),
                domains: Seq::empty(),
                hal_interfaces: Seq::empty(),
                issues: Seq::empty(),
                raw: None,
            }),
    {
        BuildMetadata {
            project_name: None,
            description: None,
            version: None,
            project_type: String::new(),
            build_system: String::new(),
            is_workspace: false,
            workspace_members: Vec::new(),
            scripts: Vec::new(),
            dependencies: Vec::new(),
            targets: Vec::new(),
            config_files: Vec::new(),
            project_path: None,
            platform_targets: Vec::new(),
            structure: ProjectStructure::default(),
            domains: Vec::new(),
            hal_interfaces: Vec::new(),
            issues: Vec::new(),
            raw: None,
        }
    }
}

/// One file of a scaffold.
#[derive(Debug, PartialEq, Eq)]
pub struct ScaffoldFile {
    /// Below the project.
    pub path: String,
    pub content: String,
    /// Whether the file is build wiring and not to be filled in.
    pub structural: bool,
    /// What a fillable file is for.
    pub fill_role: Option<SourceRole>,
}

/// What a [`ScaffoldFile`] holds.
#[verifier::ext_equal]
pub struct ScaffoldFileView {
    pub path: Seq<char>,
    pub content: Seq<char>,
    pub structural: bool,
    pub fill_role: Option<SourceRole>,
}

impl DeepView for ScaffoldFile {
    type V = ScaffoldFileView;

    open spec fn deep_view(&self) -> ScaffoldFileView {
        ScaffoldFileView {
            path: self.path@,
            content: self.content@,
            structural: self.structural,
            fill_role: self.fill_role,
        }
    }
}

impl Clone for ScaffoldFile {
    fn clone(&self) -> (r: Self)
        ensures
            r.deep_view() == self.deep_view(),
    {
        ScaffoldFile {
            path: self.path.clone(),
            content: self.content.clone(),
            structural: self.structural,
            fill_role: self.fill_role,
        }
    }
}

/// A copy of a list of [`ScaffoldFile`] values.
pub fn copy_scaffold_files(v: &Vec<ScaffoldFile>) -> (r: Vec<ScaffoldFile>)
    ensures
        r.deep_view() == v.deep_view(),
{
    let mut out: Vec<ScaffoldFile> = Vec::new();
    let mut i: usize = 0;
    while i < v.len()
        invariant
            i <= v@.len(),
            out.deep_view() == v.deep_view().take(i as int),
        decreases v@.len() - i,
    {
        add_item(&mut out, v[i].clone());
        assert(v.deep_view().take(i + 1) =~= v.deep_view().take(i as int).push(v[i as int].deep_view()));
        i = i + 1;
    }
    assert(v.deep_view().take(v@.len() as int) =~= v.deep_view());
    out
}

impl Default for ScaffoldFile {
    fn default() -> (r: Self)
        ensures
            r.deep_view() == (ScaffoldFileView {
                path: Seq::empty(),
                content: Seq::empty(),
                structural: false,
                fill_role: None,
            }),
    {
        ScaffoldFile {
            path: String::new(),
            content: String::new(),
            structural: false,
            fill_role: None,
        }
    }
}

/// The files of a new project.
#[derive(Debug, PartialEq, Eq)]
pub struct ScaffoldOutput {
    pub build_file: String,
    pub build_content: String,
    /// Empty for the project itself.
    pub source_dir: String,
    pub source_file: String,
    pub source_content: String,
    /// The whole layout where there is more than one file.
    pub files: Vec<ScaffoldFile>,
    pub platform_targets: Vec<String>,
    /// The directories below which files may be filled in.
    pub fill_roots: Vec<String>,
    pub dependency_sections: Vec<String>,
    pub structure: ProjectStructure,
    pub embedded: bool,
}

/// What a [`ScaffoldOutput`] holds.
#[verifier::ext_equal]
pub struct ScaffoldOutputView {
    pub build_file: Seq<char>,
    pub build_content: Seq<char>,
    pub source_dir: Seq<char>,
    pub source_file: Seq<char>,
    pub source_content: Seq<char>,
    pub files: Seq<ScaffoldFileView>,
    pub platform_targets: Seq<Seq<char>>,
    pub fill_roots: Seq<Seq<char>>,
    pub dependency_sections: Seq<Seq<char>>,
    pub structure: ProjectStructure,
    pub embedded: bool,
}

impl DeepView for ScaffoldOutput {
    type V = ScaffoldOutputView;

    open spec fn deep_view(&self) -> ScaffoldOutputView {
        ScaffoldOutputView {
            build_file: self.build_file@,
            build_content: self.build_content@,
            source_dir: self.source_dir@,
            source_file: self.source_file@,
            source_content: self.source_content@,
            files: self.files.deep_view(),
            platform_targets: self.platform_targets.deep_view(),
            fill_roots: self.fill_roots.deep_view(),
            dependency_sections: self.dependency_sections.deep_view(),
            structure: self.structure,
            embedded: self.embedded,
        }
    }
}

impl Clone for ScaffoldOutput {
    fn clone(&self) -> (r: Self)
        ensures
            r.deep_view() == self.deep_view(),
    {
        ScaffoldOutput {
            build_file: self.build_file.clone(),
            build_content: self.build_content.clone(),
            source_dir: self.source_dir.clone(),
            source_file: self.source_file.clone(),
            source_content: self.source_content.clone(),
            files: copy_scaffold_files(&self.files),
            platform_targets: copy_texts(&self.platform_targets),
            fill_roots: copy_texts(&self.fill_roots),
            dependency_sections: copy_texts(&self.dependency_sections),
            structure: self.structure,
            embedded: self.embedded,
        }
    }
}

impl Default for ScaffoldOutput {
    fn default() -> (r: Self)
        ensures
            r.deep_view() == (ScaffoldOutputView {
                build_file: Seq::empty(),
                build_content: Seq::empty(),
                source_dir: Seq::empty(),
                source_file: Seq::empty(),
                source_content: Seq::empty(),
                files: Seq::empty(),
                platform_targets: Seq::empty(),
                fill_roots: Seq::empty(),
                dependency_sections: Seq::empty(),
                structure: ProjectStructure::initial(),
                embedded: false,
            }),
    {
        ScaffoldOutput {
            build_file: String::new(),
            build_content: String::new(),
            source_dir: String::new(),
            source_file: String::new(),
            source_content: String::new(),
            files: Vec::new(),
            platform_targets: Vec::new(),
            fill_roots: Vec::new(),
            dependency_sections: Vec::new(),
            structure: ProjectStructure::default(),
            embedded: false,
        }
    }
}

/// One event of a running build.
#[derive(Debug, PartialEq, Eq)]
pub struct BuildEvent {
    pub line: String,
    /// `compiling`, `warning`, `error`, `finished` or `info`.
    pub level: String,
    pub target: Option<String>,
    pub file: Option<String>,
    pub line_number: Option<u32>,
    pub message: Option<String>,
    pub detail: Option<String>,
}

/// What a [`BuildEvent`] holds.
#[verifier::ext_equal]
pub struct BuildEventView {
    pub line: Seq<char>,
    pub level: Seq<char>,
    pub target: Option<Seq<char>>,
    pub file: Option<Seq<char>>,
    pub line_number: Option<u32>,
    pub message: Option<Seq<char>>,
    pub detail: Option<Seq<char>>,
}

impl DeepView for BuildEvent {
    type V = BuildEventView;

    open spec fn deep_view(&self) -> BuildEventView {
        BuildEventView {
            line: self.line@,
            level: self.level@,
            target: self.target.deep_view(),
            file: self.file.deep_view(),
            line_number: self.line_number,
            message: self.message.deep_view(),
            detail: self.detail.deep_view(),
        }
    }
}

impl Clone for BuildEvent {
    fn clone(&self) -> (r: Self)
        ensures
            r.deep_view() == self.deep_view(),
    {
        BuildEvent {
            line: self.line.clone(),
            level: self.level.clone(),
            target: copy_text_option(&self.target),
            file: copy_text_option(&self.file),
            line_number: self.line_number,
            message: copy_text_option(&self.message),
            detail: copy_text_option(&self.detail),
        }
    }
}

/// A tool server that a build module asks for.
#[derive(Debug, PartialEq, Eq)]
pub struct McpServerDependency {
    pub name: String,
    pub package: String,
    pub install_command: String,
    pub command: String,
    pub args: Vec<String>,
    pub autostart: bool,
    pub build_type: Option<String>,
    pub allowed_for_steps: Vec<String>,
    pub allowed_tools: Vec<String>,
}

/// What a [`McpServerDependency`] holds.
#[verifier::ext_equal]
pub struct McpServerDependencyView {
    pub name: Seq<char>,
    pub package: Seq<char>,
    pub install_command: Seq<char>,
    pub command: Seq<char>,
    pub args: Seq<Seq<char>>,
    pub autostart: bool,
    pub build_type: Option<Seq<char>>,
    pub allowed_for_steps: Seq<Seq<char>>,
    pub allowed_tools: Seq<Seq<char>>,
}

impl DeepView for McpServerDependency {
    type V = McpServerDependencyView;

    open spec fn deep_view(&self) -> McpServerDependencyView {
        McpServerDependencyView {
            name: self.name@,
            package: self.package@,
            install_command: self.install_command@,
            command: self.command@,
            args: self.args.deep_view(),
            autostart: self.autostart,
            build_type: self.build_type.deep_view(),
            allowed_for_steps: self.allowed_for_steps.deep_view(),
            allowed_tools: self.allowed_tools.deep_view(),
        }
    }
}

impl Clone for McpServerDependency {
    fn clone(&self) -> (r: Self)
        ensures
            r.deep_view() == self.deep_view(),
    {
        McpServerDependency {
            name: self.name.clone(),
            package: self.package.clone(),
            install_command: self.install_command.clone(),
            command: self.command.clone(),
            args: copy_texts(&self.args),
            autostart: self.autostart,
            build_type: copy_text_option(&self.build_type),
            allowed_for_steps: copy_texts(&self.allowed_for_steps),
            allowed_tools: copy_texts(&self.allowed_tools),
        }
    }
}

/// A copy of a list of [`McpServerDependency`] values.
pub fn copy_mcp_server_dependencies(v: &Vec<McpServerDependency>) -> (r: Vec<McpServerDependency>)
    ensures
        r.deep_view() == v.deep_view(),
{
    let mut out: Vec<McpServerDependency> = Vec::new();
    let mut i: usize = 0;
    while i < v.len()
        invariant
            i <= v@.len(),
            out.deep_view() == v.deep_view().take(i as int),
        decreases v@.len() - i,
    {
        add_item(&mut out, v[i].clone());
        assert(v.deep_view().take(i + 1) =~= v.deep_view().take(i as int).push(v[i as int].deep_view()));
        i = i + 1;
    }
    assert(v.deep_view().take(v@.len() as int) =~= v.deep_view());
    out
}

/// What a build module can do.
#[derive(Debug, PartialEq, Eq)]
pub struct ModuleCapability {
    pub name: String,
    pub config_files: Vec<String>,
    pub build_system: String,
    pub language: String,
    pub source_extensions: Vec<String>,
    pub supports_clean: bool,
    pub supports_lint: bool,
    pub supports_format: bool,
    pub supports_fix: bool,
    pub supports_flash: bool,
    pub mcp_servers: Vec<McpServerDependency>,
}

/// What a [`ModuleCapability`] holds.
#[verifier::ext_equal]
pub struct ModuleCapabilityView {
    pub name: Seq<char>,
    pub config_files: Seq<Seq<char>>,
    pub build_system: Seq<char>,
    pub language: Seq<char>,
    pub source_extensions: Seq<Seq<char>>,
    pub supports_clean: bool,
    pub supports_lint: bool,
    pub supports_format: bool,
    pub supports_fix: bool,
    pub supports_flash: bool,
    pub mcp_servers: Seq<McpServerDependencyView>,
}

impl DeepView for ModuleCapability {
    type V = ModuleCapabilityView;

    open spec fn deep_view(&self) -> ModuleCapabilityView {
        ModuleCapabilityView {
            name: self.name@,
            config_files: self.config_files.deep_view(),
            build_system: self.build_system@,
            language: self.language@,
            source_extensions: self.source_extensions.deep_view(),
            supports_clean: self.supports_clean,
            supports_lint: self.supports_lint,
            supports_format: self.supports_format,
            supports_fix: self.supports_fix,
            supports_flash: self.supports_flash,
            mcp_servers: self.mcp_servers.deep_view(),
        }
    }
}

impl Clone for ModuleCapability {
    fn clone(&self) -> (r: Self)
        ensures
            r.deep_view() == self.deep_view(),
    {
        ModuleCapability {
            name: self.name.clone(),
            config_files: copy_texts(&self.config_files),
            build_system: self.build_system.clone(),
            language: self.language.clone(),
            source_extensions: copy_texts(&self.source_extensions),
            supports_clean: self.supports_clean,
            supports_lint: self.supports_lint,
            supports_format: self.supports_format,
            supports_fix: self.supports_fix,
            supports_flash: self.supports_flash,
            mcp_servers: copy_mcp_server_dependencies(&self.mcp_servers),
        }
    }
}

/// What a build is asked for.
#[derive(Debug, PartialEq, Eq)]
pub struct BuildOptions {
    /// `debug`, `release` or the name of a script.
    pub mode: String,
    pub package: Option<String>,
    pub platform: Option<String>,
    pub target: Option<String>,
}

/// What a [`BuildOptions`] holds.
#[verifier::ext_equal]
pub struct BuildOptionsView {
    pub mode: Seq<char>,
    pub package: Option<Seq<char>>,
    pub platform: Option<Seq<char>>,
    pub target: Option<Seq<char>>,
}

impl DeepView for BuildOptions {
    type V = BuildOptionsView;

    open spec fn deep_view(&self) -> BuildOptionsView {
        BuildOptionsView {
            mode: self.mode@,
            package: self.package.deep_view(),
            platform: self.platform.deep_view(),
            target: self.target.deep_view(),
        }
    }
}

impl Clone for BuildOptions {
    fn clone(&self) -> (r: Self)
        ensures
            r.deep_view() == self.deep_view(),
    {
        BuildOptions {
            mode: self.mode.clone(),
            package: copy_text_option(&self.package),
            platform: copy_text_option(&self.platform),
            target: copy_text_option(&self.target),
        }
    }
}

impl Default for BuildOptions {
    fn default() -> (r: Self)
        ensures
            r.deep_view() == (BuildOptionsView {
                mode: Seq::empty(),
                package: None,
                platform: None,
                target: None,
            }),
    {
        BuildOptions {
            mode: String::new(),
            package: None,
            platform: None,
            target: None,
        }
    }
}

/// What a test run is asked for.
#[derive(Debug, PartialEq, Eq)]
pub struct TestOptions {
    pub filter: Option<String>,
}

/// What a [`TestOptions`] holds.
#[verifier::ext_equal]
pub struct TestOptionsView {
    pub filter: Option<Seq<char>>,
}

impl DeepView for TestOptions {
    type V = TestOptionsView;

    open spec fn deep_view(&self) -> TestOptionsView {
        TestOptionsView {
            filter: self.filter.deep_view(),
        }
    }
}

impl Clone for TestOptions {
    fn clone(&self) -> (r: Self)
        ensures
            r.deep_view() == self.deep_view(),
    {
        TestOptions {
            filter: copy_text_option(&self.filter),
        }
    }
}

impl Default for TestOptions {
    fn default() -> (r: Self)
        ensures
            r.deep_view() == (TestOptionsView {
                filter: None,
            }),
    {
        TestOptions {
            filter: None,
        }
    }
}

/// An edge between two nodes of a parsed file.
#[derive(Debug, PartialEq, Eq)]
pub struct AstEdgeData {
    pub from_index: usize,
    pub to_index: usize,
    /// `child` or `imports`.
    pub edge_type: String,
    pub order: Option<u32>,
    pub field: Option<String>,
}

/// What a [`AstEdgeData`] holds.
#[verifier::ext_equal]
pub struct AstEdgeDataView {
    pub from_index: usize,
    pub to_index: usize,
    pub edge_type: Seq<char>,
    pub order: Option<u32>,
    pub field: Option<Seq<char>>,
}

impl DeepView for AstEdgeData {
    type V = AstEdgeDataView;

    open spec fn deep_view(&self) -> AstEdgeDataView {
        AstEdgeDataView {
            from_index: self.from_index,
            to_index: self.to_index,
            edge_type: self.edge_type@,
            order: self.order,
            field: self.field.deep_view(),
        }
    }
}

impl Clone for AstEdgeData {
    fn clone(&self) -> (r: Self)
        ensures
            r.deep_view() == self.deep_view(),
    {
        AstEdgeData {
            from_index: self.from_index,
            to_index: self.to_index,
            edge_type: self.edge_type.clone(),
            order: self.order,
            field: copy_text_option(&self.field),
        }
    }
}

/// A copy of a list of [`AstEdgeData`] values.
pub fn copy_ast_edges(v: &Vec<AstEdgeData>) -> (r: Vec<AstEdgeData>)
    ensures
        r.deep_view() == v.deep_view(),
{
    let mut out: Vec<AstEdgeData> = Vec::new();
    let mut i: usize = 0;
    while i < v.len()
        invariant
            i <= v@.len(),
            out.deep_view() == v.deep_view().take(i as int),
        decreases v@.len() - i,
    {
        add_item(&mut out, v[i].clone());
        assert(v.deep_view().take(i + 1) =~= v.deep_view().take(i as int).push(v[i as int].deep_view()));
        i = i + 1;
    }
    assert(v.deep_view().take(v@.len() as int) =~= v.deep_view());
    out
}

/// One node of a parsed file.
#[derive(Debug, PartialEq, Eq)]
pub struct AstNodeData {
    /// `function`, `class`, `import` or `method`.
    pub node_type: String,
    pub name: Option<String>,
    pub text: String,
    pub start_line: u32,
    pub start_col: u32,
    pub end_line: u32,
    pub end_col: u32,
    pub depth: u32,
    pub is_public: bool,
    pub is_async: bool,
    pub signature: Option<String>,
    pub return_type: Option<String>,
    /// The indices of its children.
    pub children: Vec<usize>,
}

/// What a [`AstNodeData`] holds.
#[verifier::ext_equal]
pub struct AstNodeDataView {
    pub node_type: Seq<char>,
    pub name: Option<Seq<char>>,
    pub text: Seq<char>,
    pub start_line: u32,
    pub start_col: u32,
    pub end_line: u32,
    pub end_col: u32,
    pub depth: u32,
    pub is_public: bool,
    pub is_async: bool,
    pub signature: Option<Seq<char>>,
    pub return_type: Option<Seq<char>>,
    pub children: Seq<usize>,
}

impl DeepView for AstNodeData {
    type V = AstNodeDataView;

    open spec fn deep_view(&self) -> AstNodeDataView {
        AstNodeDataView {
            node_type: self.node_type@,
            name: self.name.deep_view(),
            text: self.text@,
            start_line: self.start_line,
            start_col: self.start_col,
            end_line: self.end_line,
            end_col: self.end_col,
            depth: self.depth,
            is_public: self.is_public,
            is_async: self.is_async,
            signature: self.signature.deep_view(),
            return_type: self.return_type.deep_view(),
            children: self.children@,
        }
    }
}

impl Clone for AstNodeData {
    fn clone(&self) -> (r: Self)
        ensures
            r.deep_view() == self.deep_view(),
    {
        AstNodeData {
            node_type: self.node_type.clone(),
            name: copy_text_option(&self.name),
            text: self.text.clone(),
            start_line: self.start_line,
            start_col: self.start_col,
            end_line: self.end_line,
            end_col: self.end_col,
            depth: self.depth,
            is_public: self.is_public,
            is_async: self.is_async,
            signature: copy_text_option(&self.signature),
            return_type: copy_text_option(&self.return_type),
            children: self.children.clone(),
        }
    }
}

/// A copy of a list of [`AstNodeData`] values.
pub fn copy_ast_nodes(v: &Vec<AstNodeData>) -> (r: Vec<AstNodeData>)
    ensures
        r.deep_view() == v.deep_view(),
{
    let mut out: Vec<AstNodeData> = Vec::new();
    let mut i: usize = 0;
    while i < v.len()
        invariant
            i <= v@.len(),
            out.deep_view() == v.deep_view().take(i as int),
        decreases v@.len() - i,
    {
        add_item(&mut out, v[i].clone());
        assert(v.deep_view().take(i + 1) =~= v.deep_view().take(i as int).push(v[i as int].deep_view()));
        i = i + 1;
    }
    assert(v.deep_view().take(v@.len() as int) =~= v.deep_view());
    out
}

/// What a source file was parsed into.
#[derive(Debug, PartialEq, Eq)]
pub struct AstParseResult {
    pub file_path: String,
    pub language: String,
    pub content_hash: String,
    pub has_errors: bool,
    pub nodes: Vec<AstNodeData>,
    pub edges: Vec<AstEdgeData>,
    pub docs: Vec<HalDoc>,
}

/// What a [`AstParseResult`] holds.
#[verifier::ext_equal]
pub struct AstParseResultView {
    pub file_path: Seq<char>,
    pub language: Seq<char>,
    pub content_hash: Seq<char>,
    pub has_errors: bool,
    pub nodes: Seq<AstNodeDataView>,
    pub edges: Seq<AstEdgeDataView>,
    pub docs: Seq<HalDocView>,
}

impl DeepView for AstParseResult {
    type V = AstParseResultView;

    open spec fn deep_view(&self) -> AstParseResultView {
        AstParseResultView {
            file_path: self.file_path@,
            language: self.language@,
            content_hash: self.content_hash@,
            has_errors: self.has_errors,
            nodes: self.nodes.deep_view(),
            edges: self.edges.deep_view(),
            docs: self.docs.deep_view(),
        }
    }
}

impl Clone for AstParseResult {
    fn clone(&self) -> (r: Self)
        ensures
            r.deep_view() == self.deep_view(),
    {
        AstParseResult {
            file_path: self.file_path.clone(),
            language: self.language.clone(),
            content_hash: self.content_hash.clone(),
            has_errors: self.has_errors,
            nodes: copy_ast_nodes(&self.nodes),
            edges: copy_ast_edges(&self.edges),
            docs: copy_hal_docs(&self.docs),
        }
    }
}

/// How much of a parsed file was stored.
#[derive(Debug, PartialEq, Eq)]
pub struct ParseSummary {
    pub nodes_written: usize,
    pub edges_written: usize,
    /// Whether the stored content was the same already.
    pub skipped: bool,
}

/// What a [`ParseSummary`] holds.
#[verifier::ext_equal]
pub struct ParseSummaryView {
    pub nodes_written: usize,
    pub edges_written: usize,
    pub skipped: bool,
}

impl DeepView for ParseSummary {
    type V = ParseSummaryView;

    open spec fn deep_view(&self) -> ParseSummaryView {
        ParseSummaryView {
            nodes_written: self.nodes_written,
            edges_written: self.edges_written,
            skipped: self.skipped,
        }
    }
}

impl Clone for ParseSummary {
    fn clone(&self) -> (r: Self)
        ensures
            r.deep_view() == self.deep_view(),
    {
        ParseSummary {
            nodes_written: self.nodes_written,
            edges_written: self.edges_written,
            skipped: self.skipped,
        }
    }
}

impl Default for ParseSummary {
    fn default() -> (r: Self)
        ensures
            r.deep_view() == (ParseSummaryView {
                nodes_written: 0,
                edges_written: 0,
                skipped: false,
            }),
    {
        ParseSummary {
            nodes_written: 0,
            edges_written: 0,
            skipped: false,
        }
    }
}

/// The build system that a configuration file belongs to.
pub open spec fn system_of(filename: Seq<char>) -> Seq<char> {
    if filename == "Cargo.toml"@ {
        "Cargo"@
    } else if filename == "package.json"@ || filename == "pnpm-workspace.yaml"@ {
        "npm"@
    } else if filename == "Package.swift"@ {
        "SwiftPM"@
    } else if filename == "pyproject.toml"@ || filename == "setup.py"@ || filename == "setup.cfg"@ {
        "Python"@
    } else if filename == "go.mod"@ {
        "Go"@
    } else if filename == "build.gradle"@ || filename == "build.gradle.kts"@ || filename == "settings.gradle"@ || filename == "settings.gradle.kts"@ {
        "Gradle"@
    } else if filename == "pom.xml"@ {
        "Maven"@
    } else if filename == "CMakeLists.txt"@ {
        "CMake"@
    } else if filename == "Makefile"@ || filename == "makefile"@ {
        "Make"@
    } else if filename == "meson.build"@ {
        "Meson"@
    } else if filename == "Gemfile"@ || filename == "Rakefile"@ || filename == "*.gemspec"@ {
        "Ruby"@
    } else {
        "Unknown"@
    }
}

/// The build system that a configuration file belongs to; `Unknown` where none
/// is registered for it.
pub fn build_system_for_config(filename: &str) -> (r: &'static str)
    ensures
        r@ == system_of(filename@),
{
    if same(filename, "Cargo.toml") {
        "Cargo"
    } else if same(filename, "package.json") || same(filename, "pnpm-workspace.yaml") {
        "npm"
    } else if same(filename, "Package.swift") {
        "SwiftPM"
    } else if same(filename, "pyproject.toml") || same(filename, "setup.py") || same(filename, "setup.cfg") {
        "Python"
    } else if same(filename, "go.mod") {
        "Go"
    } else if same(filename, "build.gradle") || same(filename, "build.gradle.kts") || same(filename, "settings.gradle") || same(filename, "settings.gradle.kts") {
        "Gradle"
    } else if same(filename, "pom.xml") {
        "Maven"
    } else if same(filename, "CMakeLists.txt") {
        "CMake"
    } else if same(filename, "Makefile") || same(filename, "makefile") {
        "Make"
    } else if same(filename, "meson.build") {
        "Meson"
    } else if same(filename, "Gemfile") || same(filename, "Rakefile") || same(filename, "*.gemspec") {
        "Ruby"
    } else {
        "Unknown"
    }
}

} // verus!
