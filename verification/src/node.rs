//! Node projects: `package.json` analysis, commands and scaffold.

use vstd::prelude::*;

use crate::command::{refusal, refuse, CommandLine, CommandLineView, Plan, PlanView, Request};
use crate::json::{
    json_items, member, member_of, members, members_of, parse_json, position, positions,
    positions_fit, string_at, string_in, string_of, string_under, JsonItem, JsonItemView, JsonKind,
};
use crate::project::{
    dir_at, dir_name, drop_last_step, exists_at, find_dir_name, join_path, names_in, path_join, plain_path,
    replace_last_step, steps_of, takes_steps, to_plain_path, with_last_step, without_last_step, ProjectTree,
    ProjectTreeView,
};
use crate::text::{
    add_item, begins, chars_of, contains, has_text, list_has, replace, replaced, same, starts_with,
};
use crate::types::{
    BuildMetadata, BuildMetadataView, BuildOptions, BuildScript, BuildScriptView, BuildTarget,
    BuildTargetView, Dependency, DependencyView, McpServerDependency, McpServerDependencyView,
    ModuleCapability, ModuleCapabilityView, ProjectStructure, ScaffoldOutput, ScaffoldOutputView,
    SourceKind, TestOptions, ToolCall, ToolCallView, WorkspaceMember, WorkspaceMemberView,
};

verus! {

/// The Node build module.
#[derive(Debug, Clone, Copy, PartialEq, Eq, Structural)]
pub struct NodeBuildModule;

impl NodeBuildModule {
    /// The module.
    pub fn new() -> (r: Self)
        ensures
            r == NodeBuildModule,
    {
        NodeBuildModule
    }

    /// The package manager, from the lock files.
    pub open spec fn manager(t: ProjectTreeView) -> Seq<char> {
        if exists_at(t, "pnpm-lock.yaml"@) {
            "pnpm"@
        } else if exists_at(t, "yarn.lock"@) {
            "yarn"@
        } else {
            "npm"@
        }
    }

    /// The command that builds: the script that the mode names, or `build`.
    pub open spec fn build_line(t: ProjectTreeView, mode: Seq<char>) -> CommandLineView {
        CommandLineView {
            program: Self::manager(t),
            args: seq![
                "run"@,
                if mode.len() == 0 {
                    "build"@
                } else {
                    mode
                },
            ],
        }
    }

    /// The command that tests, with the filter handed on.
    pub open spec fn test_line(t: ProjectTreeView, filter: Option<Seq<char>>) -> CommandLineView {
        CommandLineView {
            program: Self::manager(t),
            args: match filter {
                Some(f) => seq!["run"@, "test"@, "--"@, f],
                None => seq!["run"@, "test"@],
            },
        }
    }

    /// What is done about a request.
    pub open spec fn planned(
        t: ProjectTreeView,
        mode: Seq<char>,
        filter: Option<Seq<char>>,
        request: Request,
    ) -> PlanView {
        match request {
            Request::Build => PlanView::Run(Self::build_line(t, mode)),
            Request::Test => PlanView::Run(Self::test_line(t, filter)),
            _ => refusal(request),
        }
    }

    /// What is done about a request.
    pub fn plan(
        &self,
        tree: &ProjectTree,
        build: &BuildOptions,
        test: &TestOptions,
        request: Request,
    ) -> (r: Plan)
        ensures
            r.deep_view() == Self::planned(
                tree.deep_view(),
                build.mode@,
                test.filter.deep_view(),
                request,
            ),
    {
        match request {
            Request::Build => {
                let script = if build.mode.as_str().unicode_len() == 0 {
                    "build".to_owned()
                } else {
                    build.mode.clone()
                };
                let args = vec!["run".to_owned(), script];
                assert(args.deep_view() =~= Self::build_line(tree.deep_view(), build.mode@).args);
                Plan::Run(CommandLine { program: detect_pm(tree).to_owned(), args })
            },
            Request::Test => {
                let mut args = vec!["run".to_owned(), "test".to_owned()];
                if let Some(f) = &test.filter {
                    args.push("--".to_owned());
                    args.push(f.clone());
                }
                assert(args.deep_view() =~= Self::test_line(
                    tree.deep_view(),
                    test.filter.deep_view(),
                ).args);
                Plan::Run(CommandLine { program: detect_pm(tree).to_owned(), args })
            },
            _ => refuse(request),
        }
    }

    /// Analyses a project from its `package.json`; the content is what reading it
    /// gave.
    pub fn analyze(&self, tree: &ProjectTree, content: &Result<String, String>) -> (r: Result<
        BuildMetadata,
        String,
    >)
        ensures
            (match content {
                Ok(c) => match json_items(c@) {
                    Ok(items) => r matches Ok(m) && m.deep_view() == package_metadata(
                        tree.deep_view(),
                        items,
                        c@,
                    ),
                    Err(e) => r matches Err(m) && m@ == "Invalid package.json: "@ + e,
                },
                Err(e) => r matches Err(m) && m@ == "Failed to read package.json: "@ + e@,
            }),
    {
        match content {
            Ok(c) => match parse_json(c.as_str()) {
                Ok(items) => Ok(read_package(tree, &items, c.as_str())),
                Err(e) => {
                    let mut s = "Invalid package.json: ".to_owned();
                    s.append(e.as_str());
                    Err(s)
                },
            },
            Err(e) => {
                let mut s = "Failed to read package.json: ".to_owned();
                s.append(e.as_str());
                Err(s)
            },
        }
    }

    /// What the module can do.
    pub open spec fn capabilities() -> ModuleCapabilityView {
        ModuleCapabilityView {
            name: "node"@,
            config_files: seq!["package.json"@],
            build_system: "npm"@,
            language: "JavaScript"@,
            source_extensions: seq!["js"@, "jsx"@, "ts"@, "tsx"@],
            supports_clean: false,
            supports_lint: false,
            supports_format: false,
            supports_fix: false,
            supports_flash: false,
            mcp_servers: seq![McpServerDependencyView {
                name: "npm-mcp"@,
                package: "npm-mcp-server"@,
                install_command: "cargo install npm-mcp-server"@,
                command: "npm-mcp-server"@,
                args: Seq::empty(),
                autostart: false,
                build_type: Some("npm"@),
                allowed_for_steps: seq!["discover_dependencies"@],
                allowed_tools: Seq::empty(),
            }],
        }
    }

    /// What the module can do.
    pub fn describe_capabilities(&self) -> (r: ModuleCapability)
        ensures
            r.deep_view() == Self::capabilities(),
    {
        let server = McpServerDependency {
            name: "npm-mcp".to_owned(),
            package: "npm-mcp-server".to_owned(),
            install_command: "cargo install npm-mcp-server".to_owned(),
            command: "npm-mcp-server".to_owned(),
            args: Vec::new(),
            autostart: false,
            build_type: Some("npm".to_owned()),
            allowed_for_steps: vec!["discover_dependencies".to_owned()],
            allowed_tools: Vec::new(),
        };
        assert(server.deep_view() =~= Self::capabilities().mcp_servers[0]) by {
            assert(server.args.deep_view() =~= Seq::empty());
            assert(server.allowed_for_steps.deep_view() =~= seq!["discover_dependencies"@]);
            assert(server.allowed_tools.deep_view() =~= Seq::empty());
        }
        let r = ModuleCapability {
            name: "node".to_owned(),
            config_files: vec!["package.json".to_owned()],
            build_system: "npm".to_owned(),
            language: "JavaScript".to_owned(),
            source_extensions: vec!["js".to_owned(), "jsx".to_owned(), "ts".to_owned(), "tsx".to_owned()],
            supports_clean: false,
            supports_lint: false,
            supports_format: false,
            supports_fix: false,
            supports_flash: false,
            mcp_servers: vec![server],
        };
        assert(r.config_files.deep_view() =~= Self::capabilities().config_files);
        assert(r.source_extensions.deep_view() =~= Self::capabilities().source_extensions);
        assert(r.mcp_servers.deep_view() =~= Self::capabilities().mcp_servers);
        r
    }

    /// The files of a new project.
    pub open spec fn new_project(name: Seq<char>) -> ScaffoldOutputView {
        ScaffoldOutputView {
            build_file: "package.json"@,
            build_content: replaced("{\n  \"name\": \"__P__\",\n  \"version\": \"0.1.0\",\n  \"main\": \"src/index.js\",\n  \"scripts\": { \"start\": \"node src/index.js\" },\n  \"dependencies\": {}\n}\n"@, "__P__"@, name),
            source_dir: "src"@,
            source_file: "index.js"@,
            source_content: replaced("console.log(\"Hello from __P__!\");\n"@, "__P__"@, name),
            files: Seq::empty(),
            platform_targets: Seq::empty(),
            fill_roots: Seq::empty(),
            dependency_sections: Seq::empty(),
            structure: ProjectStructure::Native,
            embedded: false,
        }
    }

    /// The files of a new project.
    pub fn scaffold(&self, name: &str) -> (r: ScaffoldOutput)
        ensures
            r.deep_view() == Self::new_project(name@),
    {
        proof {
            reveal_strlit("__P__");
        }
        let mut r = ScaffoldOutput::default();
        r.build_file = "package.json".to_owned();
        r.build_content = replace("{\n  \"name\": \"__P__\",\n  \"version\": \"0.1.0\",\n  \"main\": \"src/index.js\",\n  \"scripts\": { \"start\": \"node src/index.js\" },\n  \"dependencies\": {}\n}\n", "__P__", name);
        r.source_dir = "src".to_owned();
        r.source_file = "index.js".to_owned();
        r.source_content = replace("console.log(\"Hello from __P__!\");\n", "__P__", name);
        assert(r.deep_view() =~= Self::new_project(name@));
        r
    }
}

impl Default for NodeBuildModule {
    fn default() -> (r: Self)
        ensures
            r == NodeBuildModule,
    {
        NodeBuildModule
    }
}

/// The package manager, from the lock files.
pub fn detect_pm(tree: &ProjectTree) -> (r: &'static str)
    ensures
        r@ == NodeBuildModule::manager(tree.deep_view()),
{
    if tree.has_path("pnpm-lock.yaml") {
        "pnpm"
    } else if tree.has_path("yarn.lock") {
        "yarn"
    } else {
        "npm"
    }
}

// ---------------------------------------------------------------------------
// Patterns
// ---------------------------------------------------------------------------

/// The pattern from `i` on fits the name from `j` on.
pub open spec fn fits_from(pattern: Seq<char>, i: int, name: Seq<char>, j: int) -> bool
    decreases pattern.len() - i, name.len() - j,
{
    if i < 0 || i > pattern.len() || j < 0 || j > name.len() {
        false
    } else if i == pattern.len() {
        j == name.len()
    } else if pattern[i] == '*' {
        fits_from(pattern, i + 1, name, j) || (j < name.len() && fits_from(pattern, i, name, j + 1))
    } else {
        j < name.len() && (pattern[i] == '?' || pattern[i] == name[j]) && fits_from(
            pattern,
            i + 1,
            name,
            j + 1,
        )
    }
}

/// The pattern fits the name: `*` stands for any text, `?` for one character, and
/// any other character for itself.
pub open spec fn glob_fits(pattern: Seq<char>, name: Seq<char>) -> bool {
    fits_from(pattern, 0, name, 0)
}

/// The row says from which places of the name on, counted from its end, the pattern
/// from `i` on fits.
pub open spec fn is_row(row: Seq<bool>, pattern: Seq<char>, i: int, name: Seq<char>) -> bool {
    forall|k: int|
        0 <= k < row.len() ==> #[trigger] row[k] == fits_from(pattern, i, name, name.len() - k)
}

fn end_row(pattern: &Vec<char>, name: &Vec<char>) -> (r: Vec<bool>)
    ensures
        is_row(r@, pattern@, pattern@.len() as int, name@),
        r@.len() == name@.len() + 1,
{
    let mut row: Vec<bool> = vec![true];
    let mut k: usize = 0;
    while k < name.len()
        invariant
            k <= name@.len(),
            row@.len() == k + 1,
            is_row(row@, pattern@, pattern@.len() as int, name@),
        decreases name@.len() - k,
    {
        row.push(false);
        k = k + 1;
    }
    row
}

fn row_before(pattern: &Vec<char>, i: usize, name: &Vec<char>, next: &Vec<bool>) -> (r: Vec<bool>)
    requires
        i < pattern@.len(),
        next@.len() == name@.len() + 1,
        is_row(next@, pattern@, i + 1, name@),
    ensures
        r@.len() == name@.len() + 1,
        is_row(r@, pattern@, i as int, name@),
{
    let mut row: Vec<bool> = Vec::new();
    let p = pattern[i];
    let mut k: usize = 0;
    while k < next.len()
        invariant
            i < pattern@.len(),
            p == pattern@[i as int],
            next@.len() == name@.len() + 1,
            is_row(next@, pattern@, i + 1, name@),
            k <= next@.len(),
            row@.len() == k,
            is_row(row@, pattern@, i as int, name@),
        decreases next@.len() - k,
    {
        assert(next@[k as int] == fits_from(pattern@, i + 1, name@, name@.len() - k));
        let fits = if k == 0 {
            p == '*' && next[0]
        } else if p == '*' {
            assert(row@[k - 1] == fits_from(pattern@, i as int, name@, name@.len() - (k - 1)));
            next[k] || row[k - 1]
        } else {
            assert(next@[k - 1] == fits_from(pattern@, i + 1, name@, name@.len() - (k - 1)));
            (p == '?' || p == name[name.len() - k]) && next[k - 1]
        };
        assert(fits == fits_from(pattern@, i as int, name@, name@.len() - k));
        row.push(fits);
        k = k + 1;
    }
    row
}

/// Whether a pattern, in which `*` stands for any text and `?` for one character,
/// fits a name.
pub fn simple_glob_match(pattern: &str, name: &str) -> (r: bool)
    ensures
        r == glob_fits(pattern@, name@),
{
    let pattern = chars_of(pattern);
    let name = chars_of(name);
    let mut row = end_row(&pattern, &name);
    let mut i: usize = pattern.len();
    while i > 0
        invariant
            i <= pattern@.len(),
            row@.len() == name@.len() + 1,
            is_row(row@, pattern@, i as int, name@),
        decreases i,
    {
        row = row_before(&pattern, i - 1, &name, &row);
        i = i - 1;
    }
    assert(row@[name@.len() as int] == fits_from(pattern@, 0, name@, name@.len() - name@.len()));
    row[name.len()]
}

// ---------------------------------------------------------------------------
// Workspace members
// ---------------------------------------------------------------------------

/// The strings among the first `n` of the values.
pub open spec fn strings_upto(items: Seq<JsonItemView>, list: Seq<int>, n: int) -> Seq<Seq<char>>
    decreases n,
{
    if n <= 0 {
        Seq::empty()
    } else {
        let done = strings_upto(items, list, n - 1);
        match string_at(items, Some(list[n - 1])) {
            Some(s) => done.push(s),
            None => done,
        }
    }
}

/// The strings of the array at `i`; none where it is no array.
pub open spec fn strings_in(items: Seq<JsonItemView>, i: Option<int>) -> Seq<Seq<char>> {
    match i {
        Some(k) => if 0 <= k < items.len() && items[k].kind == JsonKind::List {
            strings_upto(items, members(items, k), members(items, k).len() as int)
        } else {
            Seq::empty()
        },
        None => Seq::empty(),
    }
}

fn list_strings(items: &Vec<JsonItem>, i: Option<usize>) -> (r: Vec<String>)
    ensures
        r.deep_view() == strings_in(items.deep_view(), position(i)),
{
    let ghost all = items.deep_view();
    let mut out: Vec<String> = Vec::new();
    assert(out.deep_view() =~= Seq::empty());
    let at: usize = match i {
        Some(k) => k,
        None => {
            return out;
        },
    };
    if at >= items.len() {
        return out;
    }
    assert(all[at as int] == items[at as int].deep_view());
    if items[at].kind != JsonKind::List {
        return out;
    }
    let found = members_of(items, at);
    let ghost list = positions(found@);
    let mut n: usize = 0;
    while n < found.len()
        invariant
            n <= found@.len(),
            all == items.deep_view(),
            list == positions(found@),
            out.deep_view() == strings_upto(all, list, n as int),
        decreases found@.len() - n,
    {
        assert(list[n as int] == found[n as int] as int);
        if let Some(s) = string_of(items, Some(found[n])) {
            add_item(&mut out, s);
        }
        n = n + 1;
    }
    out
}

/// The patterns of the `workspaces` field: an array of them, or an object with
/// one under `packages`.
pub open spec fn workspace_patterns(items: Seq<JsonItemView>) -> Seq<Seq<char>> {
    match member(items, 0, "workspaces"@) {
        Some(k) => if items[k].kind == JsonKind::Object {
            strings_in(items, member(items, k, "packages"@))
        } else {
            strings_in(items, Some(k))
        },
        None => Seq::empty(),
    }
}

fn list_patterns(items: &Vec<JsonItem>) -> (r: Vec<String>)
    ensures
        r.deep_view() == workspace_patterns(items.deep_view()),
{
    let ghost all = items.deep_view();
    match member_of(items, 0, "workspaces") {
        Some(k) => {
            assert(all[k as int] == items[k as int].deep_view());
            if items[k].kind == JsonKind::Object {
                list_strings(items, member_of(items, k, "packages"))
            } else {
                list_strings(items, Some(k))
            }
        },
        None => {
            let none: Vec<String> = Vec::new();
            assert(none.deep_view() =~= Seq::empty());
            none
        },
    }
}

/// The members that a pattern whose last step holds wildcards finds among the
/// first `n` names of a directory.
pub open spec fn globbed_upto(
    t: ProjectTreeView,
    pattern: Seq<char>,
    dir: Seq<char>,
    names: Seq<Seq<char>>,
    n: int,
) -> Seq<WorkspaceMemberView>
    decreases n,
{
    if n <= 0 {
        Seq::empty()
    } else {
        let done = globbed_upto(t, pattern, dir, names, n - 1);
        let name = names[n - 1];
        if dir_at(t, path_join(dir, name)) && glob_fits(steps_of(pattern).last(), name) {
            done.push(
                WorkspaceMemberView { name, path: with_last_step(pattern, name), version: None },
            )
        } else {
            done
        }
    }
}

/// The name of the directory that a pattern without wildcards leads to: that of
/// its last step, or of the root where it takes none.
pub open spec fn member_name(root: Seq<char>, pattern: Seq<char>) -> Option<Seq<char>> {
    if steps_of(pattern).len() > 0 {
        dir_name(pattern)
    } else {
        dir_name(root)
    }
}

/// The directory in which the last step of a pattern is looked for.
pub open spec fn pattern_dir(root: Seq<char>, pattern: Seq<char>) -> Option<Seq<char>> {
    match dir_name(pattern) {
        Some(name) => plain_path(root, without_last_step(pattern)),
        None => None,
    }
}

/// The members that a pattern finds; one without wildcards that stays at the root
/// finds the project itself.
pub open spec fn members_for(t: ProjectTreeView, pattern: Seq<char>) -> Seq<WorkspaceMemberView> {
    if !has_text(pattern, "*"@) && !has_text(pattern, "?"@) {
        match (member_name(t.root, pattern), plain_path(t.root, pattern)) {
            (Some(name), Some(path)) => if path.len() == 0 || dir_at(t, path) {
                seq![WorkspaceMemberView { name, path: pattern, version: None }]
            } else {
                Seq::empty()
            },
            _ => Seq::empty(),
        }
    } else {
        match pattern_dir(t.root, pattern) {
            Some(dir) => globbed_upto(t, pattern, dir, names_in(t, dir), names_in(t, dir).len() as int),
            None => Seq::empty(),
        }
    }
}

/// The members that the first `n` patterns find.
pub open spec fn members_upto(t: ProjectTreeView, patterns: Seq<Seq<char>>, n: int) -> Seq<
    WorkspaceMemberView,
>
    decreases n,
{
    if n <= 0 {
        Seq::empty()
    } else {
        members_upto(t, patterns, n - 1) + members_for(t, patterns[n - 1])
    }
}

/// The members of a workspace.
pub open spec fn workspace_members(t: ProjectTreeView, items: Seq<JsonItemView>) -> Seq<
    WorkspaceMemberView,
> {
    members_upto(t, workspace_patterns(items), workspace_patterns(items).len() as int)
}

fn find_pattern_dir(root: &str, pattern: &str) -> (r: Option<String>)
    ensures
        r.deep_view() == pattern_dir(root@, pattern@),
{
    match find_dir_name(pattern) {
        Some(_) => to_plain_path(root, drop_last_step(pattern).as_str()),
        None => None,
    }
}

fn add_members(tree: &ProjectTree, pattern: &str, out: &mut Vec<WorkspaceMember>)
    ensures
        final(out).deep_view() == old(out).deep_view() + members_for(tree.deep_view(), pattern@),
{
    let ghost t = tree.deep_view();
    let ghost start = out.deep_view();
    if !contains(pattern, "*") && !contains(pattern, "?") {
        let name = match find_dir_name(pattern) {
            Some(name) => Some(name),
            None => if takes_steps(pattern) {
                None
            } else {
                find_dir_name(tree.root.as_str())
            },
        };
        if let Some(name) = name {
            if let Some(path) = to_plain_path(tree.root.as_str(), pattern) {
                if path.as_str().unicode_len() == 0 || tree.is_dir(path.as_str()) {
                    add_item(out, WorkspaceMember { name, path: pattern.to_owned(), version: None });
                }
            }
        }
        assert(out.deep_view() =~= start + members_for(t, pattern@));
        return ;
    }
    let (last, dir) = match (find_dir_name(pattern), find_pattern_dir(tree.root.as_str(), pattern)) {
        (Some(last), Some(dir)) => (last, dir),
        _ => {
            assert(out.deep_view() =~= start + Seq::empty());
            return ;
        },
    };
    let names = tree.list(dir.as_str());
    let ghost all = names.deep_view();
    let mut i: usize = 0;
    assert(out.deep_view() =~= start + globbed_upto(t, pattern@, dir@, all, 0));
    while i < names.len()
        invariant
            i <= names@.len(),
            t == tree.deep_view(),
            all == names.deep_view(),
            steps_of(pattern@).len() > 0,
            last@ == steps_of(pattern@).last(),
            out.deep_view() == start + globbed_upto(t, pattern@, dir@, all, i as int),
        decreases names@.len() - i,
    {
        let name = names[i].as_str();
        if tree.is_dir(join_path(dir.as_str(), name).as_str()) && simple_glob_match(last.as_str(), name) {
            let path = replace_last_step(pattern, name);
            add_item(out, WorkspaceMember { name: name.to_owned(), path, version: None });
        }
        assert(out.deep_view() =~= start + globbed_upto(t, pattern@, dir@, all, i + 1));
        i = i + 1;
    }
}

/// The members of a workspace, from the `workspaces` field.
pub fn detect_workspace_members(tree: &ProjectTree, items: &Vec<JsonItem>) -> (r: Vec<
    WorkspaceMember,
>)
    ensures
        r.deep_view() == workspace_members(tree.deep_view(), items.deep_view()),
{
    let ghost t = tree.deep_view();
    let patterns = list_patterns(items);
    let mut out: Vec<WorkspaceMember> = Vec::new();
    assert(out.deep_view() =~= Seq::empty());
    let mut i: usize = 0;
    while i < patterns.len()
        invariant
            i <= patterns@.len(),
            t == tree.deep_view(),
            out.deep_view() == members_upto(t, patterns.deep_view(), i as int),
        decreases patterns@.len() - i,
    {
        add_members(tree, patterns[i].as_str(), &mut out);
        i = i + 1;
    }
    out
}

/// The directories out of the root in which the first `n` patterns look, each once.
pub open spec fn outer_dirs_upto(root: Seq<char>, patterns: Seq<Seq<char>>, n: int) -> Seq<Seq<char>>
    decreases n,
{
    if n <= 0 {
        Seq::empty()
    } else {
        let done = outer_dirs_upto(root, patterns, n - 1);
        match pattern_dir(root, patterns[n - 1]) {
            Some(dir) => if (dir == ".."@ || begins(dir, "../"@)) && !done.contains(dir) {
                done.push(dir)
            } else {
                done
            },
            None => done,
        }
    }
}

/// The directories out of the root in which the workspace's patterns look: a tree
/// that is to show members there has their entries too.
pub fn outer_workspace_dirs(root: &str, items: &Vec<JsonItem>) -> (r: Vec<String>)
    ensures
        r.deep_view() == ({
            let patterns = workspace_patterns(items.deep_view());
            outer_dirs_upto(root@, patterns, patterns.len() as int)
        }),
{
    let patterns = list_patterns(items);
    let mut out: Vec<String> = Vec::new();
    assert(out.deep_view() =~= Seq::empty());
    let mut i: usize = 0;
    while i < patterns.len()
        invariant
            i <= patterns@.len(),
            out.deep_view() == outer_dirs_upto(root@, patterns.deep_view(), i as int),
        decreases patterns@.len() - i,
    {
        if let Some(dir) = find_pattern_dir(root, patterns[i].as_str()) {
            let outside = same(dir.as_str(), "..") || starts_with(dir.as_str(), "../");
            if outside && !list_has(&out, dir.as_str()) {
                add_item(&mut out, dir);
            }
        }
        i = i + 1;
    }
    out
}

// ---------------------------------------------------------------------------
// The package
// ---------------------------------------------------------------------------

/// The members of the object at `i`; none where it is no object.
pub open spec fn entries(items: Seq<JsonItemView>, i: Option<int>) -> Seq<int> {
    match i {
        Some(k) => if 0 <= k < items.len() && items[k].kind == JsonKind::Object {
            members(items, k)
        } else {
            Seq::empty()
        },
        None => Seq::empty(),
    }
}

fn list_entries(items: &Vec<JsonItem>, i: Option<usize>) -> (r: Vec<usize>)
    ensures
        positions(r@) == entries(items.deep_view(), position(i)),
        positions_fit(r@, items@.len() as int),
{
    let none: Vec<usize> = Vec::new();
    assert(positions(none@) =~= Seq::empty());
    match i {
        Some(k) => {
            if k < items.len() {
                assert(items.deep_view()[k as int] == items[k as int].deep_view());
                if items[k].kind == JsonKind::Object {
                    return members_of(items, k);
                }
            }
            none
        },
        None => none,
    }
}

/// The text, or an empty one.
pub open spec fn or_blank(s: Option<Seq<char>>) -> Seq<char> {
    match s {
        Some(t) => t,
        None => Seq::empty(),
    }
}

/// The scripts among the first `n` of the values.
pub open spec fn scripts_upto(
    items: Seq<JsonItemView>,
    list: Seq<int>,
    system: Seq<char>,
    n: int,
) -> Seq<BuildScriptView>
    decreases n,
{
    if n <= 0 {
        Seq::empty()
    } else {
        let name = items[list[n - 1]].key;
        let command = or_blank(string_at(items, Some(list[n - 1])));
        scripts_upto(items, list, system, n - 1).push(
            BuildScriptView {
                name,
                command,
                tool_call: Some(
                    ToolCallView {
                        tool: "project/build"@,
                        mode: name,
                        command,
                        build_system: system,
                    },
                ),
            },
        )
    }
}

fn read_scripts(items: &Vec<JsonItem>, system: &str) -> (r: Vec<BuildScript>)
    ensures
        r.deep_view() == ({
            let list = entries(items.deep_view(), member(items.deep_view(), 0, "scripts"@));
            scripts_upto(items.deep_view(), list, system@, list.len() as int)
        }),
{
    let ghost all = items.deep_view();
    let found = list_entries(items, member_of(items, 0, "scripts"));
    let ghost list = positions(found@);
    let mut out: Vec<BuildScript> = Vec::new();
    assert(out.deep_view() =~= Seq::empty());
    let mut n: usize = 0;
    while n < found.len()
        invariant
            n <= found@.len(),
            all == items.deep_view(),
            list == positions(found@),
            positions_fit(found@, items@.len() as int),
            out.deep_view() == scripts_upto(all, list, system@, n as int),
        decreases found@.len() - n,
    {
        let k: usize = found[n];
        assert(list[n as int] == k as int);
        assert(all[k as int] == items[k as int].deep_view());
        let command = match string_of(items, Some(k)) {
            Some(s) => s,
            None => {
                let s = String::new();
                assert(s@ =~= Seq::empty());
                s
            },
        };
        let call = ToolCall {
            tool: "project/build".to_owned(),
            mode: items[k].key.clone(),
            command: command.clone(),
            build_system: system.to_owned(),
        };
        add_item(
            &mut out,
            BuildScript { name: items[k].key.clone(), command, tool_call: Some(call) },
        );
        n = n + 1;
    }
    out
}

/// The dependencies among the first `n` of the values.
pub open spec fn dependencies_upto(
    items: Seq<JsonItemView>,
    list: Seq<int>,
    kind: Seq<char>,
    n: int,
) -> Seq<DependencyView>
    decreases n,
{
    if n <= 0 {
        Seq::empty()
    } else {
        dependencies_upto(items, list, kind, n - 1).push(
            DependencyView {
                name: items[list[n - 1]].key,
                version: string_at(items, Some(list[n - 1])),
                version_req: string_at(items, Some(list[n - 1])),
                kind: Some(kind),
                source: Some("registry"@),
                source_url: None,
                features: None,
                scope: None,
            },
        )
    }
}

/// The dependencies under a field.
pub open spec fn dependencies_under(
    items: Seq<JsonItemView>,
    field: Seq<char>,
    kind: Seq<char>,
) -> Seq<DependencyView> {
    let list = entries(items, member(items, 0, field));
    dependencies_upto(items, list, kind, list.len() as int)
}

fn add_dependencies(items: &Vec<JsonItem>, field: &str, kind: &str, out: &mut Vec<Dependency>)
    ensures
        final(out).deep_view() == old(out).deep_view() + dependencies_under(
            items.deep_view(),
            field@,
            kind@,
        ),
{
    let ghost start = out.deep_view();
    let ghost all = items.deep_view();
    let found = list_entries(items, member_of(items, 0, field));
    let ghost list = positions(found@);
    let mut n: usize = 0;
    assert(out.deep_view() =~= start + dependencies_upto(all, list, kind@, 0));
    while n < found.len()
        invariant
            n <= found@.len(),
            all == items.deep_view(),
            list == positions(found@),
            positions_fit(found@, items@.len() as int),
            out.deep_view() == start + dependencies_upto(all, list, kind@, n as int),
        decreases found@.len() - n,
    {
        let k: usize = found[n];
        assert(list[n as int] == k as int);
        assert(all[k as int] == items[k as int].deep_view());
        add_item(
            out,
            Dependency {
                name: items[k].key.clone(),
                version: string_of(items, Some(k)),
                version_req: string_of(items, Some(k)),
                kind: Some(kind.to_owned()),
                source: Some("registry".to_owned()),
                source_url: None,
                features: None,
                scope: None,
            },
        );
        assert(out.deep_view() =~= start + dependencies_upto(all, list, kind@, n + 1));
        n = n + 1;
    }
}

/// An entry point of a package.
pub open spec fn entry_point(
    name: Seq<char>,
    kind: Seq<char>,
    source_path: Option<Seq<char>>,
) -> BuildTargetView {
    BuildTargetView {
        name,
        kind: seq![kind],
        source_path,
        source_files: Seq::empty(),
        dependencies: Seq::empty(),
        platform: Seq::empty(),
        source_kind: SourceKind::Single,
        source_units: Seq::empty(),
        build_spec: None,
    }
}

fn make_entry_point(name: String, kind: &str, source_path: Option<String>) -> (r: BuildTarget)
    ensures
        r.deep_view() == entry_point(name@, kind@, source_path.deep_view()),
{
    let mut t = BuildTarget::default();
    t.name = name;
    t.kind = vec![kind.to_owned()];
    t.source_path = source_path;
    assert(t.kind.deep_view() =~= seq![kind@]);
    t
}

/// The programs among the first `n` of the values.
pub open spec fn programs_upto(items: Seq<JsonItemView>, list: Seq<int>, n: int) -> Seq<
    BuildTargetView,
>
    decreases n,
{
    if n <= 0 {
        Seq::empty()
    } else {
        programs_upto(items, list, n - 1).push(
            entry_point(
                items[list[n - 1]].key,
                "bin"@,
                string_at(items, Some(list[n - 1])),
            ),
        )
    }
}

/// The name of a package, or another one.
pub open spec fn name_or(name: Option<Seq<char>>, other: Seq<char>) -> Seq<char> {
    match name {
        Some(n) => n,
        None => other,
    }
}

/// The entry points of a package: `main`, then `bin`, which is one path or an
/// object of them.
pub open spec fn entry_points(items: Seq<JsonItemView>) -> Seq<BuildTargetView> {
    let name = string_under(items, 0, "name"@);
    let main = match string_under(items, 0, "main"@) {
        Some(p) => seq![entry_point(name_or(name, "main"@), "lib"@, Some(p))],
        None => Seq::empty(),
    };
    let bin = match string_under(items, 0, "bin"@) {
        Some(p) => seq![entry_point(name_or(name, "bin"@), "bin"@, Some(p))],
        None => {
            let list = entries(items, member(items, 0, "bin"@));
            programs_upto(items, list, list.len() as int)
        },
    };
    main + bin
}

fn read_entry_points(items: &Vec<JsonItem>) -> (r: Vec<BuildTarget>)
    ensures
        r.deep_view() == entry_points(items.deep_view()),
{
    let ghost all = items.deep_view();
    let mut out: Vec<BuildTarget> = Vec::new();
    assert(out.deep_view() =~= Seq::empty());
    if let Some(p) = string_in(items, 0, "main") {
        let name = match string_in(items, 0, "name") {
            Some(n) => n,
            None => "main".to_owned(),
        };
        add_item(&mut out, make_entry_point(name, "lib", Some(p)));
    }
    let ghost first = out.deep_view();
    if let Some(p) = string_in(items, 0, "bin") {
        let name = match string_in(items, 0, "name") {
            Some(n) => n,
            None => "bin".to_owned(),
        };
        add_item(&mut out, make_entry_point(name, "bin", Some(p)));
        assert(out.deep_view() =~= entry_points(all));
        return out;
    }
    let found = list_entries(items, member_of(items, 0, "bin"));
    let ghost list = positions(found@);
    let mut n: usize = 0;
    assert(out.deep_view() =~= first + programs_upto(all, list, 0));
    while n < found.len()
        invariant
            n <= found@.len(),
            all == items.deep_view(),
            list == positions(found@),
            positions_fit(found@, items@.len() as int),
            out.deep_view() == first + programs_upto(all, list, n as int),
        decreases found@.len() - n,
    {
        let k: usize = found[n];
        assert(list[n as int] == k as int);
        assert(all[k as int] == items[k as int].deep_view());
        let path = string_of(items, Some(k));
        add_item(&mut out, make_entry_point(items[k].key.clone(), "bin", path));
        assert(out.deep_view() =~= first + programs_upto(all, list, n + 1));
        n = n + 1;
    }
    assert(out.deep_view() =~= entry_points(all));
    out
}

/// The package is an editor extension.
pub open spec fn is_extension(items: Seq<JsonItemView>) -> bool {
    ||| member(items, 0, "contributes"@) is Some
    ||| member(items, 0, "activationEvents"@) is Some
    ||| (member(items, 0, "engines"@) matches Some(k) && member(items, k, "vscode"@) is Some)
}

fn is_editor_extension(items: &Vec<JsonItem>) -> (r: bool)
    ensures
        r == is_extension(items.deep_view()),
{
    if member_of(items, 0, "contributes").is_some() || member_of(items, 0, "activationEvents").is_some() {
        return true;
    }
    match member_of(items, 0, "engines") {
        Some(k) => member_of(items, k, "vscode").is_some(),
        None => false,
    }
}

/// The build system of a package: the lock and workspace files decide.
pub open spec fn package_system(t: ProjectTreeView) -> Seq<char> {
    if exists_at(t, "pnpm-lock.yaml"@) || exists_at(t, "pnpm-workspace.yaml"@) {
        "pnpm"@
    } else if exists_at(t, "yarn.lock"@) {
        "yarn"@
    } else {
        "npm"@
    }
}

/// The configuration files of a package.
pub open spec fn package_configs(t: ProjectTreeView) -> Seq<Seq<char>> {
    seq!["package.json"@] + (if exists_at(t, "pnpm-lock.yaml"@) {
        seq!["pnpm-lock.yaml"@]
    } else {
        Seq::empty()
    }) + (if exists_at(t, "pnpm-workspace.yaml"@) {
        seq!["pnpm-workspace.yaml"@]
    } else {
        Seq::empty()
    }) + (if exists_at(t, "yarn.lock"@) {
        seq!["yarn.lock"@]
    } else {
        Seq::empty()
    })
}

/// What analysis finds in a package.
pub open spec fn package_metadata(
    t: ProjectTreeView,
    items: Seq<JsonItemView>,
    content: Seq<char>,
) -> BuildMetadataView {
    let scripts = entries(items, member(items, 0, "scripts"@));
    BuildMetadataView {
        project_name: string_under(items, 0, "name"@),
        description: string_under(items, 0, "description"@),
        version: string_under(items, 0, "version"@),
        project_type: if is_extension(items) {
            "vscode_extension"@
        } else if exists_at(t, "pnpm-workspace.yaml"@) {
            "pnpm_workspace"@
        } else {
            "node_package"@
        },
        build_system: package_system(t),
        is_workspace: exists_at(t, "pnpm-workspace.yaml"@) || workspace_members(t, items).len() > 0,
        workspace_members: workspace_members(t, items),
        scripts: scripts_upto(items, scripts, package_system(t), scripts.len() as int),
        dependencies: dependencies_under(items, "dependencies"@, "normal"@) + dependencies_under(
            items,
            "devDependencies"@,
            "dev"@,
        ),
        targets: entry_points(items),
        config_files: package_configs(t),
        project_path: Some(t.root),
        platform_targets: Seq::empty(),
        structure: ProjectStructure::Native,
        domains: Seq::empty(),
        hal_interfaces: Seq::empty(),
        issues: Seq::empty(),
        raw: Some(content),
    }
}

/// What analysis finds in a package, from the items of its `package.json`.
pub fn read_package(tree: &ProjectTree, items: &Vec<JsonItem>, content: &str) -> (r: BuildMetadata)
    ensures
        r.deep_view() == package_metadata(tree.deep_view(), items.deep_view(), content@),
{
    let ghost t = tree.deep_view();
    let ghost all = items.deep_view();
    let pnpm_lock = tree.has_path("pnpm-lock.yaml");
    let pnpm_workspace = tree.has_path("pnpm-workspace.yaml");
    let yarn_lock = tree.has_path("yarn.lock");
    let system = if pnpm_lock || pnpm_workspace {
        "pnpm"
    } else if yarn_lock {
        "yarn"
    } else {
        "npm"
    };
    let project_type = if is_editor_extension(items) {
        "vscode_extension"
    } else if pnpm_workspace {
        "pnpm_workspace"
    } else {
        "node_package"
    };
    let mut dependencies: Vec<Dependency> = Vec::new();
    assert(dependencies.deep_view() =~= Seq::empty());
    add_dependencies(items, "dependencies", "normal", &mut dependencies);
    add_dependencies(items, "devDependencies", "dev", &mut dependencies);
    assert(dependencies.deep_view() =~= dependencies_under(all, "dependencies"@, "normal"@)
        + dependencies_under(all, "devDependencies"@, "dev"@));
    let mut config_files = vec!["package.json".to_owned()];
    if pnpm_lock {
        config_files.push("pnpm-lock.yaml".to_owned());
    }
    if pnpm_workspace {
        config_files.push("pnpm-workspace.yaml".to_owned());
    }
    if yarn_lock {
        config_files.push("yarn.lock".to_owned());
    }
    assert(config_files.deep_view() =~= package_configs(t));
    let found = detect_workspace_members(tree, items);
    let mut m = BuildMetadata::default();
    m.project_name = string_in(items, 0, "name");
    m.description = string_in(items, 0, "description");
    m.version = string_in(items, 0, "version");
    m.project_type = project_type.to_owned();
    m.build_system = system.to_owned();
    m.is_workspace = pnpm_workspace || found.len() > 0;
    m.workspace_members = found;
    m.scripts = read_scripts(items, system);
    m.dependencies = dependencies;
    m.targets = read_entry_points(items);
    m.config_files = config_files;
    m.project_path = Some(tree.root.clone());
    m.raw = Some(content.to_owned());
    assert(m.deep_view() =~= package_metadata(t, all, content@));
    m
}

} // verus!
