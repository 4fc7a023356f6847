//! The Meson build module: analysis, capabilities and scaffold.

use vstd::prelude::*;

use crate::hash::sha256_digits;
use crate::meson::{meson_metadata, read_meson_project};
use crate::project::{has_extension, name_of, path_name, with_extension, ProjectTree};
use crate::source::{
    basic_parse, cpp_parse, parse_cpp_source_file_std, parse_source_file_std,
};
use crate::text::{add_item, copy_texts, join, joined, list_has, replace, replaced, same};
use crate::types::{
    AstParseResult, BuildMetadata, ModuleCapability, ModuleCapabilityView, ProjectStructure,
    ScaffoldFile, ScaffoldFileView, ScaffoldOutput, ScaffoldOutputView, SourceRole,
};

verus! {

/// The Meson build module.
#[derive(Debug, Clone, Copy, PartialEq, Eq, Structural)]
pub struct MesonBuildModule;

impl MesonBuildModule {
    /// The module.
    pub fn new() -> (r: Self)
        ensures
            r == MesonBuildModule,
    {
        MesonBuildModule
    }

    /// Analyses a project from its build files; the content is what reading the top
    /// one gave.
    pub fn analyze(&self, tree: &ProjectTree, content: &Result<String, String>) -> (r: Result<
        BuildMetadata,
        String,
    >)
        ensures
            (match content {
                Ok(c) => r matches Ok(m) && m.deep_view() == meson_metadata(tree.deep_view(), c@),
                Err(e) => r matches Err(m) && m@ == "Failed to read meson.build: "@ + e@,
            }),
    {
        match content {
            Ok(c) => Ok(read_meson_project(tree, c.as_str())),
            Err(e) => {
                let mut s = "Failed to read meson.build: ".to_owned();
                s.append(e.as_str());
                Err(s)
            },
        }
    }

    /// Parses a source file; a header is read with its member functions. The
    /// content is what reading it gave.
    pub fn parse_source_file(&self, file_path: &str, content: &Result<String, String>) -> (r: Result<
        AstParseResult,
        String,
    >)
        requires
            content matches Ok(c) ==> c@.len() < 0x1fff_ffff,
        ensures
            (match content {
                Ok(c) => r matches Ok(p) && p.deep_view() == (if has_extension(
                    name_of(file_path@),
                    "hpp"@,
                ) || has_extension(name_of(file_path@), "h"@) {
                    cpp_parse(file_path@, c@)
                } else {
                    basic_parse(file_path@, "C/C++"@, c@, sha256_digits(c@))
                }),
                Err(e) => r matches Err(m) && m@ == "Failed to read "@ + file_path@ + ": "@ + e@,
            }),
    {
        let name = path_name(file_path);
        if with_extension(name, "hpp") || with_extension(name, "h") {
            parse_cpp_source_file_std(file_path, content)
        } else {
            parse_source_file_std(file_path, "C/C++", content)
        }
    }

    /// What the module can do.
    pub open spec fn capabilities() -> ModuleCapabilityView {
        ModuleCapabilityView {
            name: "meson"@,
            config_files: seq!["meson.build"@],
            build_system: "Meson"@,
            language: "C/C++"@,
            source_extensions: seq!["c"@, "cpp"@, "cc"@, "cxx"@, "h"@, "hpp"@],
            supports_clean: true,
            supports_lint: true,
            supports_format: true,
            supports_fix: true,
            supports_flash: false,
            mcp_servers: Seq::empty(),
        }
    }

    /// What the module can do.
    pub fn describe_capabilities(&self) -> (r: ModuleCapability)
        ensures
            r.deep_view() == Self::capabilities(),
    {
        let r = ModuleCapability {
            name: "meson".to_owned(),
            config_files: vec!["meson.build".to_owned()],
            build_system: "Meson".to_owned(),
            language: "C/C++".to_owned(),
            source_extensions: vec!["c".to_owned(), "cpp".to_owned(), "cc".to_owned(), "cxx".to_owned(), "h".to_owned(), "hpp".to_owned()],
            supports_clean: true,
            supports_lint: true,
            supports_format: true,
            supports_fix: true,
            supports_flash: false,
            mcp_servers: Vec::new(),
        };
        assert(r.config_files.deep_view() =~= Self::capabilities().config_files);
        assert(r.source_extensions.deep_view() =~= Self::capabilities().source_extensions);
        assert(r.mcp_servers.deep_view() =~= Self::capabilities().mcp_servers);
        r
    }

    /// Makes the files of a new project. With platforms other than the host it has
    /// one directory per platform, and, for a HAL, a container for contracts and
    /// implementations; else it is a single program.
    pub fn scaffold_layout(
        &self,
        name: &str,
        _goal: &str,
        platforms: &Vec<String>,
        structure: ProjectStructure,
    ) -> (r: Result<ScaffoldOutput, String>)
        ensures
            r matches Ok(s) && s.deep_view() == meson_scaffold(
                name@,
                platforms.deep_view(),
                structure,
            ),
    {
        let cross = list_cross(platforms);
        if cross.len() == 0 {
            Ok(single_program(name, platforms, structure))
        } else {
            Ok(platform_layout(name, platforms, &cross, structure))
        }
    }
}

impl Default for MesonBuildModule {
    fn default() -> (r: Self)
        ensures
            r == MesonBuildModule,
    {
        MesonBuildModule
    }
}

/// The platforms among the first `n` that are not the host.
pub open spec fn cross_upto(platforms: Seq<Seq<char>>, n: int) -> Seq<Seq<char>>
    decreases n,
{
    if n <= 0 {
        Seq::empty()
    } else {
        let done = cross_upto(platforms, n - 1);
        if platforms[n - 1] == "host"@ {
            done
        } else {
            done.push(platforms[n - 1])
        }
    }
}

/// The platforms that are not the host.
pub open spec fn cross_of(platforms: Seq<Seq<char>>) -> Seq<Seq<char>> {
    cross_upto(platforms, platforms.len() as int)
}

fn list_cross(platforms: &Vec<String>) -> (r: Vec<String>)
    ensures
        r.deep_view() == cross_of(platforms.deep_view()),
{
    let mut out: Vec<String> = Vec::new();
    assert(out.deep_view() =~= Seq::empty());
    let mut i: usize = 0;
    while i < platforms.len()
        invariant
            i <= platforms@.len(),
            out.deep_view() == cross_upto(platforms.deep_view(), i as int),
        decreases platforms@.len() - i,
    {
        if !same(platforms[i].as_str(), "host") {
            add_item(&mut out, platforms[i].clone());
        }
        i = i + 1;
    }
    out
}

/// A single program for the host.
pub open spec fn single_scaffold(
    name: Seq<char>,
    platforms: Seq<Seq<char>>,
    structure: ProjectStructure,
) -> ScaffoldOutputView {
    ScaffoldOutputView {
        build_file: "meson.build"@,
        build_content: replaced("project('__P__', 'c')\n\nexecutable('__P__', 'src/main.c')\n"@, "__P__"@, name),
        source_dir: "src"@,
        source_file: "main.c"@,
        source_content: replaced("#include <stdio.h>\nint main() {\n    printf(\"Hello from __P__!\\n\");\n    return 0;\n}\n"@, "__P__"@, name),
        files: Seq::empty(),
        platform_targets: platforms,
        fill_roots: Seq::empty(),
        dependency_sections: Seq::empty(),
        structure,
        embedded: false,
    }
}

fn single_program(name: &str, platforms: &Vec<String>, structure: ProjectStructure) -> (r: ScaffoldOutput)
    ensures
        r.deep_view() == single_scaffold(name@, platforms.deep_view(), structure),
{
    proof {
        reveal_strlit("__P__");
    }
    let mut r = ScaffoldOutput::default();
    r.build_file = "meson.build".to_owned();
    r.build_content = replace("project('__P__', 'c')\n\nexecutable('__P__', 'src/main.c')\n", "__P__", name);
    r.source_dir = "src".to_owned();
    r.source_file = "main.c".to_owned();
    r.source_content = replace("#include <stdio.h>\nint main() {\n    printf(\"Hello from __P__!\\n\");\n    return 0;\n}\n", "__P__", name);
    r.platform_targets = copy_texts(platforms);
    r.structure = structure;
    assert(r.deep_view() =~= single_scaffold(name@, platforms.deep_view(), structure));
    r
}

/// The source lists of the implementations of the first `n` platforms.
pub open spec fn wirings_upto(cross: Seq<Seq<char>>, n: int) -> Seq<char>
    decreases n,
{
    if n <= 0 {
        Seq::empty()
    } else {
        let plat = cross[n - 1];
        wirings_upto(cross, n - 1) + "hal_impl_"@ + plat + "_sources = files('implementations/"@ + plat
            + "/gpio_hal_stub.cpp')\n"@
    }
}

/// The stub of a platform's implementation.
pub open spec fn stub_file(plat: Seq<char>) -> ScaffoldFileView {
    ScaffoldFileView {
        path: "hal/implementations/"@ + plat + "/gpio_hal_stub.cpp"@,
        content: "#include \"gpio_hal.hpp\"\n// TODO: implement for this platform\n"@,
        structural: false,
        fill_role: Some(SourceRole::HalImplementation),
    }
}

/// The container of a HAL, with a stub for each platform.
pub open spec fn hal_files(cross: Seq<Seq<char>>) -> Seq<ScaffoldFileView> {
    seq![
        ScaffoldFileView { path: "hal/api/README.md"@, content: "HAL contract headers live here (e.g. camera_hal.hpp).\n"@, structural: true, fill_role: None },
        ScaffoldFileView { path: "hal/meson.build"@, content: wirings_upto(cross, cross.len() as int), structural: true, fill_role: None },
    ] + Seq::new(cross.len(), |i: int| stub_file(cross[i]))
}

/// The directories of the platforms' implementations.
pub open spec fn impl_roots(cross: Seq<Seq<char>>) -> Seq<Seq<char>> {
    Seq::new(cross.len(), |i: int| "hal/implementations/"@ + cross[i])
}

fn make_file(path: String, content: String, structural: bool, fill_role: Option<SourceRole>) -> (r: ScaffoldFile)
    ensures
        r.deep_view() == (ScaffoldFileView {
            path: path@,
            content: content@,
            structural,
            fill_role,
        }),
{
    ScaffoldFile { path, content, structural, fill_role }
}

fn add_hal_files(cross: &Vec<String>, files: &mut Vec<ScaffoldFile>)
    ensures
        final(files).deep_view() == old(files).deep_view() + hal_files(cross.deep_view()),
{
    let ghost start = files.deep_view();
    let ghost all = cross.deep_view();
    let mut wiring = String::new();
    assert(wiring@ =~= Seq::empty());
    let mut i: usize = 0;
    while i < cross.len()
        invariant
            i <= cross@.len(),
            all == cross.deep_view(),
            wiring@ == wirings_upto(all, i as int),
        decreases cross@.len() - i,
    {
        let plat = cross[i].as_str();
        wiring.append("hal_impl_");
        wiring.append(plat);
        wiring.append("_sources = files('implementations/");
        wiring.append(plat);
        wiring.append("/gpio_hal_stub.cpp')\n");
        i = i + 1;
    }
    let readme = "HAL contract headers live here (e.g. camera_hal.hpp).\n".to_owned();
    add_item(files, make_file("hal/api/README.md".to_owned(), readme, true, None));
    add_item(files, make_file("hal/meson.build".to_owned(), wiring, true, None));
    let ghost head = files.deep_view();
    let ghost one = |j: int| stub_file(all[j]);
    assert(files.deep_view() =~= head + Seq::new(0, one));
    let mut i: usize = 0;
    while i < cross.len()
        invariant
            i <= cross@.len(),
            all == cross.deep_view(),
            one == (|j: int| stub_file(all[j])),
            files.deep_view() == head + Seq::new(i as nat, one),
        decreases cross@.len() - i,
    {
        let mut path = "hal/implementations/".to_owned();
        path.append(cross[i].as_str());
        path.append("/gpio_hal_stub.cpp");
        let stub = "#include \"gpio_hal.hpp\"\n// TODO: implement for this platform\n".to_owned();
        add_item(files, make_file(path, stub, false, Some(SourceRole::HalImplementation)));
        assert(files.deep_view() =~= head + Seq::new((i + 1) as nat, one));
        i = i + 1;
    }
    assert(files.deep_view() =~= start + hal_files(all));
}

fn add_impl_roots(cross: &Vec<String>, roots: &mut Vec<String>)
    ensures
        final(roots).deep_view() == old(roots).deep_view() + impl_roots(cross.deep_view()),
{
    let ghost start = roots.deep_view();
    let ghost all = cross.deep_view();
    let ghost one = |j: int| "hal/implementations/"@ + all[j];
    assert(roots.deep_view() =~= start + Seq::new(0, one));
    let mut i: usize = 0;
    while i < cross.len()
        invariant
            i <= cross@.len(),
            all == cross.deep_view(),
            one == (|j: int| "hal/implementations/"@ + all[j]),
            roots.deep_view() == start + Seq::new(i as nat, one),
        decreases cross@.len() - i,
    {
        let mut home = "hal/implementations/".to_owned();
        home.append(cross[i].as_str());
        add_item(roots, home);
        assert(roots.deep_view() =~= start + Seq::new((i + 1) as nat, one));
        i = i + 1;
    }
    assert(roots.deep_view() =~= start + impl_roots(all));
}

/// The lines that pull in the first `n` platforms.
pub open spec fn subdirs_upto(cross: Seq<Seq<char>>, n: int) -> Seq<char>
    decreases n,
{
    if n <= 0 {
        Seq::empty()
    } else {
        subdirs_upto(cross, n - 1) + "subdir('"@ + cross[n - 1] + "')\n"@
    }
}

/// The top build file.
pub open spec fn root_file(name: Seq<char>, cross: Seq<Seq<char>>) -> Seq<char> {
    "project('"@ + name + "', 'cpp')\n\n"@ + subdirs_upto(cross, cross.len() as int)
}

fn make_root_file(name: &str, cross: &Vec<String>) -> (r: String)
    ensures
        r@ == root_file(name@, cross.deep_view()),
{
    let ghost all = cross.deep_view();
    let mut subdirs = String::new();
    assert(subdirs@ =~= Seq::empty());
    let mut i: usize = 0;
    while i < cross.len()
        invariant
            i <= cross@.len(),
            all == cross.deep_view(),
            subdirs@ == subdirs_upto(all, i as int),
        decreases cross@.len() - i,
    {
        subdirs.append("subdir('");
        subdirs.append(cross[i].as_str());
        subdirs.append("')\n");
        i = i + 1;
    }
    let mut s = "project('".to_owned();
    s.append(name);
    s.append("', 'cpp')\n\n");
    s.append(subdirs.as_str());
    s
}

/// The values of the platform option: the host where it is asked for, then the
/// others.
pub open spec fn option_values(platforms: Seq<Seq<char>>) -> Seq<Seq<char>> {
    if platforms.contains("host"@) {
        seq!["host"@] + cross_of(platforms)
    } else {
        cross_of(platforms)
    }
}

/// The options file.
pub open spec fn options_file(platforms: Seq<Seq<char>>) -> Seq<char> {
    let value = option_values(platforms)[0];
    let list = joined(option_values(platforms), ", "@);
    "option('platform', type: 'string', value: '"@
        + value
        + "',\n       description: 'Target platform. Valid values: "@
        + list
        + "')\n"@
}

fn make_options_file(platforms: &Vec<String>, cross: &Vec<String>) -> (r: String)
    requires
        cross.deep_view() == cross_of(platforms.deep_view()),
        cross.len() > 0,
    ensures
        r@ == options_file(platforms.deep_view()),
{
    let mut values: Vec<String> = Vec::new();
    assert(values.deep_view() =~= Seq::empty());
    if list_has(platforms, "host") {
        add_item(&mut values, "host".to_owned());
    }
    crate::text::append_texts(&mut values, cross);
    assert(values.deep_view() =~= option_values(platforms.deep_view()));
    assert(values.deep_view().len() == values@.len());
    let list = join(&values, ", ");
    let mut s = "option('platform', type: 'string', value: '".to_owned();
    s.append(values[0].as_str());
    s.append("',\n       description: 'Target platform. Valid values: ");
    s.append(list.as_str());
    s.append("')\n");
    s
}

/// The files of a platform: its build file and its program.
pub open spec fn platform_pair(name: Seq<char>, plat: Seq<char>) -> Seq<ScaffoldFileView> {
    seq![
        ScaffoldFileView { path: plat + "/meson.build"@, content: "cpp = meson.get_compiler('cpp')\ncore_deps = []\nplatform_deps = []\nexecutable('"@
                + name
                + "-"@
                + plat
                + "',\n'main.cpp',\ndependencies: core_deps + platform_deps)\n"@, structural: true, fill_role: None },
        ScaffoldFileView { path: plat + "/main.cpp"@, content: "#include <iostream>\nint main() {\n    std::cout << \"Hello from "@
                + name
                + "-"@
                + plat
                + "!\" << std::endl;\n    return 0;\n}\n"@, structural: false, fill_role: None },
    ]
}

/// The files of the first `n` platforms.
pub open spec fn platform_files_upto(name: Seq<char>, cross: Seq<Seq<char>>, n: int) -> Seq<
    ScaffoldFileView,
>
    decreases n,
{
    if n <= 0 {
        Seq::empty()
    } else {
        platform_files_upto(name, cross, n - 1) + platform_pair(name, cross[n - 1])
    }
}

fn add_platform_pair(name: &str, plat: &str, files: &mut Vec<ScaffoldFile>)
    ensures
        final(files).deep_view() == old(files).deep_view() + platform_pair(name@, plat@),
{
    let ghost start = files.deep_view();
    let mut path = plat.to_owned();
    path.append("/meson.build");
    let mut wiring = "cpp = meson.get_compiler('cpp')\ncore_deps = []\nplatform_deps = []\nexecutable('".to_owned();
    wiring.append(name);
    wiring.append("-");
    wiring.append(plat);
    wiring.append("',\n'main.cpp',\ndependencies: core_deps + platform_deps)\n");
    add_item(files, make_file(path, wiring, true, None));
    let mut path = plat.to_owned();
    path.append("/main.cpp");
    let mut program = "#include <iostream>\nint main() {\n    std::cout << \"Hello from ".to_owned();
    program.append(name);
    program.append("-");
    program.append(plat);
    program.append("!\" << std::endl;\n    return 0;\n}\n");
    add_item(files, make_file(path, program, false, None));
    assert(files.deep_view() =~= start + platform_pair(name@, plat@));
}

/// All files of a layout with several platforms.
pub open spec fn layout_files(
    name: Seq<char>,
    platforms: Seq<Seq<char>>,
    structure: ProjectStructure,
) -> Seq<ScaffoldFileView> {
    let cross = cross_of(platforms);
    (if structure == ProjectStructure::Hal {
        hal_files(cross)
    } else {
        Seq::empty()
    }).push(
        ScaffoldFileView { path: "meson.build"@, content: root_file(name, cross), structural: true, fill_role: None },
    ).push(
        ScaffoldFileView { path: "meson_options.txt"@, content: options_file(platforms), structural: true, fill_role: None },
    ) + platform_files_upto(name, cross, cross.len() as int)
}

/// The build files of the platforms, in which dependencies are declared.
pub open spec fn dependency_files(cross: Seq<Seq<char>>) -> Seq<Seq<char>> {
    Seq::new(cross.len(), |i: int| cross[i] + "/meson.build"@)
}

/// A layout with several platforms.
pub open spec fn layout_scaffold(
    name: Seq<char>,
    platforms: Seq<Seq<char>>,
    structure: ProjectStructure,
) -> ScaffoldOutputView {
    let cross = cross_of(platforms);
    ScaffoldOutputView {
        build_file: "meson.build"@,
        build_content: root_file(name, cross),
        source_dir: cross[0],
        source_file: "main.cpp"@,
        source_content: Seq::empty(),
        files: layout_files(name, platforms, structure),
        platform_targets: platforms,
        fill_roots: if structure == ProjectStructure::Hal {
            cross + impl_roots(cross)
        } else {
            cross
        },
        dependency_sections: dependency_files(cross),
        structure,
        embedded: false,
    }
}

fn platform_layout(
    name: &str,
    platforms: &Vec<String>,
    cross: &Vec<String>,
    structure: ProjectStructure,
) -> (r: ScaffoldOutput)
    requires
        cross.deep_view() == cross_of(platforms.deep_view()),
        cross.len() > 0,
    ensures
        r.deep_view() == layout_scaffold(name@, platforms.deep_view(), structure),
{
    let ghost all = cross.deep_view();
    let mut files: Vec<ScaffoldFile> = Vec::new();
    let ghost head = if structure == ProjectStructure::Hal {
        hal_files(all)
    } else {
        Seq::empty()
    };
    assert(files.deep_view() =~= Seq::empty());
    if structure == ProjectStructure::Hal {
        add_hal_files(cross, &mut files);
    }
    assert(files.deep_view() =~= head);
    let root = make_root_file(name, cross);
    add_item(&mut files, make_file("meson.build".to_owned(), root.clone(), true, None));
    let options = make_options_file(platforms, cross);
    add_item(&mut files, make_file("meson_options.txt".to_owned(), options, true, None));
    let ghost start = files.deep_view();
    let ghost one = |j: int| all[j] + "/meson.build"@;
    let mut sections: Vec<String> = Vec::new();
    assert(sections.deep_view() =~= Seq::new(0, one));
    assert(files.deep_view() =~= start + platform_files_upto(name@, all, 0));
    let mut i: usize = 0;
    while i < cross.len()
        invariant
            i <= cross@.len(),
            all == cross.deep_view(),
            one == (|j: int| all[j] + "/meson.build"@),
            files.deep_view() == start + platform_files_upto(name@, all, i as int),
            sections.deep_view() == Seq::new(i as nat, one),
        decreases cross@.len() - i,
    {
        add_platform_pair(name, cross[i].as_str(), &mut files);
        assert(files.deep_view() =~= start + platform_files_upto(name@, all, i + 1));
        let mut s = cross[i].clone();
        s.append("/meson.build");
        add_item(&mut sections, s);
        assert(sections.deep_view() =~= Seq::new((i + 1) as nat, one));
        i = i + 1;
    }
    assert(sections.deep_view() =~= dependency_files(all));
    let mut roots = copy_texts(cross);
    if structure == ProjectStructure::Hal {
        add_impl_roots(cross, &mut roots);
    }
    let mut r = ScaffoldOutput::default();
    r.build_file = "meson.build".to_owned();
    r.build_content = root;
    r.source_dir = cross[0].clone();
    r.source_file = "main.cpp".to_owned();
    r.files = files;
    r.platform_targets = copy_texts(platforms);
    r.fill_roots = roots;
    r.dependency_sections = sections;
    r.structure = structure;
    assert(r.deep_view() =~= layout_scaffold(name@, platforms.deep_view(), structure));
    r
}

/// The files of a new project.
pub open spec fn meson_scaffold(
    name: Seq<char>,
    platforms: Seq<Seq<char>>,
    structure: ProjectStructure,
) -> ScaffoldOutputView {
    if cross_of(platforms).len() == 0 {
        single_scaffold(name, platforms, structure)
    } else {
        layout_scaffold(name, platforms, structure)
    }
}

} // verus!
