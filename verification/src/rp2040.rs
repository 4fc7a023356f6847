//! Builds and flashes for the RP2040: a plain `cargo` build for the platform's
//! target, and the host tool that the platform names.

use vstd::prelude::*;

use crate::project::{
    dir_at, file_stem, full_path, name_of, path_from_root, path_name, stem_of, ProjectTree,
    ProjectTreeView,
};
use crate::rust_contract::{eq_ignore_ascii_case, same_but_case};
use crate::text::{
    add_item, copy_text_option, copy_texts, cut_tail_text, line_seq, lines, same, strip_tail, trim, trimmed,
};
use crate::types::{
    copy_pairs, BuildOptions, BuildOptionsView, BuildSpec, BuildSpecView, ModuleCapability,
    ModuleCapabilityView,
};

verus! {

/// The operating system entry of the platforms that this module serves.
pub const RP2040_OS: &'static str = "rp2040";

/// The target triple of every RP2040 build.
pub const RP2040_TARGET: &'static str = "thumbv6m-none-eabi";

/// The processor of a platform.
#[derive(Debug, PartialEq, Eq)]
pub struct PlatformArchitecture {
    pub cpu: String,
}

/// What a [`PlatformArchitecture`] holds.
#[verifier::ext_equal]
pub struct PlatformArchitectureView {
    pub cpu: Seq<char>,
}

impl DeepView for PlatformArchitecture {
    type V = PlatformArchitectureView;

    open spec fn deep_view(&self) -> PlatformArchitectureView {
        PlatformArchitectureView {
            cpu: self.cpu@,
        }
    }
}

impl Clone for PlatformArchitecture {
    fn clone(&self) -> (r: Self)
        ensures
            r.deep_view() == self.deep_view(),
    {
        PlatformArchitecture {
            cpu: self.cpu.clone(),
        }
    }
}

/// What a Rust build for a platform needs to know.
#[derive(Debug, PartialEq, Eq)]
pub struct PlatformRust {
    /// The target triple.
    pub target: String,
    /// The chip, as its vendor spells it.
    pub idf_target: Option<String>,
    /// The tool that flashes a board.
    pub flash: Option<String>,
}

/// What a [`PlatformRust`] holds.
#[verifier::ext_equal]
pub struct PlatformRustView {
    pub target: Seq<char>,
    pub idf_target: Option<Seq<char>>,
    pub flash: Option<Seq<char>>,
}

impl DeepView for PlatformRust {
    type V = PlatformRustView;

    open spec fn deep_view(&self) -> PlatformRustView {
        PlatformRustView {
            target: self.target@,
            idf_target: self.idf_target.deep_view(),
            flash: self.flash.deep_view(),
        }
    }
}

impl Clone for PlatformRust {
    fn clone(&self) -> (r: Self)
        ensures
            r.deep_view() == self.deep_view(),
    {
        PlatformRust {
            target: self.target.clone(),
            idf_target: copy_text_option(&self.idf_target),
            flash: copy_text_option(&self.flash),
        }
    }
}

/// A platform that projects are built for.
#[derive(Debug, PartialEq, Eq)]
pub struct Platform {
    pub id: String,
    pub os: String,
    pub architecture: PlatformArchitecture,
    pub rust: Option<PlatformRust>,
}

/// What a [`Platform`] holds.
#[verifier::ext_equal]
pub struct PlatformView {
    pub id: Seq<char>,
    pub os: Seq<char>,
    pub architecture: PlatformArchitectureView,
    pub rust: Option<PlatformRustView>,
}

impl DeepView for Platform {
    type V = PlatformView;

    open spec fn deep_view(&self) -> PlatformView {
        PlatformView {
            id: self.id@,
            os: self.os@,
            architecture: self.architecture.deep_view(),
            rust: self.rust.deep_view(),
        }
    }
}

impl Clone for Platform {
    fn clone(&self) -> (r: Self)
        ensures
            r.deep_view() == self.deep_view(),
    {
        Platform {
            id: self.id.clone(),
            os: self.os.clone(),
            architecture: self.architecture.clone(),
            rust: match &self.rust {
                Some(x) => Some(x.clone()),
                None => None,
            },
        }
    }
}

/// One build: its chip, target, arguments and environment.
#[derive(Debug, PartialEq, Eq)]
pub struct Rp2040Plan {
    pub chip: String,
    pub target: String,
    /// Behind the program's name.
    pub args: Vec<String>,
    pub env: Vec<(String, String)>,
}

/// What a [`Rp2040Plan`] holds.
#[verifier::ext_equal]
pub struct Rp2040PlanView {
    pub chip: Seq<char>,
    pub target: Seq<char>,
    pub args: Seq<Seq<char>>,
    pub env: Seq<(Seq<char>, Seq<char>)>,
}

impl DeepView for Rp2040Plan {
    type V = Rp2040PlanView;

    open spec fn deep_view(&self) -> Rp2040PlanView {
        Rp2040PlanView {
            chip: self.chip@,
            target: self.target@,
            args: self.args.deep_view(),
            env: self.env.deep_view(),
        }
    }
}

impl Clone for Rp2040Plan {
    fn clone(&self) -> (r: Self)
        ensures
            r.deep_view() == self.deep_view(),
    {
        Rp2040Plan {
            chip: self.chip.clone(),
            target: self.target.clone(),
            args: copy_texts(&self.args),
            env: copy_pairs(&self.env),
        }
    }
}

/// The chip as the vendor spells it, where the platform says so.
pub open spec fn vendor_chip(p: PlatformView) -> Option<Seq<char>> {
    match p.rust {
        Some(rust) => match rust.idf_target {
            Some(chip) => if trimmed(chip).len() > 0 {
                Some(trimmed(chip))
            } else {
                None
            },
            None => None,
        },
        None => None,
    }
}

/// The chip of an RP2040 platform: the vendor's spelling, or the processor.
/// Another platform, and one that names neither, has none.
pub open spec fn chip_of(p: PlatformView) -> Option<Seq<char>> {
    if p.os != RP2040_OS@ {
        None
    } else {
        let chip = match vendor_chip(p) {
            Some(chip) => chip,
            None => trimmed(p.architecture.cpu),
        };
        if chip.len() > 0 {
            Some(chip)
        } else {
            None
        }
    }
}

/// The chip of an RP2040 platform.
pub fn rp2040_chip(platform: &Platform) -> (r: Option<String>)
    ensures
        r.deep_view() == chip_of(platform.deep_view()),
{
    if !same(platform.os.as_str(), RP2040_OS) {
        return None;
    }
    if let Some(rust) = &platform.rust {
        if let Some(chip) = &rust.idf_target {
            let chip = trim(chip.as_str());
            if chip.unicode_len() > 0 {
                return Some(chip.to_owned());
            }
        }
    }
    let chip = trim(platform.architecture.cpu.as_str());
    if chip.unicode_len() > 0 {
        Some(chip.to_owned())
    } else {
        None
    }
}

/// The arguments of a build.
pub open spec fn build_args(target: Seq<char>, opts: BuildOptionsView) -> Seq<Seq<char>> {
    seq!["build"@, "--target"@, target] + (if same_but_case(opts.mode, "release"@) {
        seq!["--release"@]
    } else {
        Seq::empty()
    }) + (match opts.package {
        Some(package) => if trimmed(package).len() > 0 {
            seq!["-p"@, package]
        } else {
            Seq::empty()
        },
        None => Seq::empty(),
    })
}

/// The plan of a build: none for another platform than an RP2040 one, and none
/// for one without a target.
pub open spec fn plan_for(p: PlatformView, opts: BuildOptionsView) -> Option<Rp2040PlanView> {
    match p.rust {
        Some(rust) => if p.os == RP2040_OS@ && trimmed(rust.target).len() > 0 {
            Some(
                Rp2040PlanView {
                    chip: match chip_of(p) {
                        Some(chip) => chip,
                        None => Seq::empty(),
                    },
                    target: trimmed(rust.target),
                    args: build_args(trimmed(rust.target), opts),
                    env: Seq::empty(),
                },
            )
        } else {
            None
        },
        None => None,
    }
}

/// The plan of a build for an RP2040 platform, `None` where it is none or has no
/// target.
pub fn rp2040_plan(platform: &Platform, opts: &BuildOptions) -> (r: Option<Rp2040Plan>)
    ensures
        r.deep_view() == plan_for(platform.deep_view(), opts.deep_view()),
{
    if !same(platform.os.as_str(), RP2040_OS) {
        return None;
    }
    let rust = match &platform.rust {
        Some(rust) => rust,
        None => {
            return None;
        },
    };
    let target = trim(rust.target.as_str());
    if target.unicode_len() == 0 {
        return None;
    }
    let mut args = vec!["build".to_owned(), "--target".to_owned(), target.to_owned()];
    assert(args.deep_view() =~= seq!["build"@, "--target"@, target@]);
    if eq_ignore_ascii_case(opts.mode.as_str(), "release") {
        add_item(&mut args, "--release".to_owned());
    }
    if let Some(package) = &opts.package {
        if trim(package.as_str()).unicode_len() > 0 {
            add_item(&mut args, "-p".to_owned());
            add_item(&mut args, package.clone());
        }
    }
    assert(args.deep_view() =~= build_args(target@, opts.deep_view()));
    let chip = match rp2040_chip(platform) {
        Some(chip) => chip,
        None => {
            let none = String::new();
            assert(none@ =~= Seq::empty());
            none
        },
    };
    let plan = Rp2040Plan { chip, target: target.to_owned(), args, env: Vec::new() };
    assert(plan.env.deep_view() =~= Seq::empty());
    Some(plan)
}

/// The flash tool that a platform declares.
pub open spec fn flash_tool(p: PlatformView) -> Option<Seq<char>> {
    match p.rust {
        Some(rust) => match rust.flash {
            Some(tool) => if trimmed(tool).len() > 0 {
                Some(tool)
            } else {
                None
            },
            None => None,
        },
        None => None,
    }
}

/// The flash tool that a platform declares.
pub fn rp2040_flash_tool(platform: &Platform) -> (r: Option<&str>)
    ensures
        (match r {
            Some(tool) => flash_tool(platform.deep_view()) == Some(tool@),
            None => flash_tool(platform.deep_view()) is None,
        }),
{
    if let Some(rust) = &platform.rust {
        if let Some(tool) = &rust.flash {
            if trim(tool.as_str()).unicode_len() > 0 {
                return Some(tool.as_str());
            }
        }
    }
    None
}

/// The name of the artifact's image, without its extension.
pub open spec fn image_stem(artifact: Seq<char>) -> Seq<char> {
    let name = name_of(strip_tail(artifact, "/"@));
    if name.len() == 0 || name == ".."@ {
        "firmware"@
    } else {
        stem_of(name)
    }
}

/// The command that flashes an artifact: one form for each tool that is known.
/// Another tool, or none, gives no command.
pub open spec fn flash_command(
    p: PlatformView,
    artifact: Seq<char>,
    device: Option<Seq<char>>,
) -> Option<Seq<Seq<char>>> {
    match flash_tool(p) {
        None => None,
        Some(tool) => if tool == "picotool"@ {
            Some(seq![tool, "load"@, "-x"@, artifact])
        } else if tool == "probe-rs"@ {
            match (chip_of(p), device) {
                (Some(chip), Some(probe)) => Some(
                    seq![tool, "run"@, "--chip"@, chip, "--probe"@, probe, artifact],
                ),
                (Some(chip), None) => Some(seq![tool, "run"@, "--chip"@, chip, artifact]),
                (None, _) => None,
            }
        } else if tool == "elf2uf2"@ || tool == "elf2uf2-rs"@ {
            match device {
                Some(volume) => Some(
                    seq![
                        "elf2uf2-rs"@,
                        artifact,
                        full_path(volume, image_stem(artifact) + ".uf2"@),
                    ],
                ),
                None => Some(seq!["elf2uf2-rs"@, "-d"@, artifact]),
            }
        } else {
            None
        },
    }
}

/// The command that flashes an artifact; the device is a probe or a volume, and
/// optional for every tool.
pub fn rp2040_flash_command(platform: &Platform, artifact: &str, device: Option<&str>) -> (r: Option<
    Vec<String>,
>)
    ensures
        r.deep_view() == flash_command(
            platform.deep_view(),
            artifact@,
            match device {
                Some(d) => Some(d@),
                None => None,
            },
        ),
{
    let ghost want = flash_command(
        platform.deep_view(),
        artifact@,
        match device {
            Some(d) => Some(d@),
            None => None,
        },
    );
    let tool = match rp2040_flash_tool(platform) {
        Some(tool) => tool,
        None => {
            return None;
        },
    };
    if same(tool, "picotool") {
        let command = vec![tool.to_owned(), "load".to_owned(), "-x".to_owned(), artifact.to_owned()];
        assert(command.deep_view() =~= want->0);
        return Some(command);
    }
    if same(tool, "probe-rs") {
        let chip = match rp2040_chip(platform) {
            Some(chip) => chip,
            None => {
                return None;
            },
        };
        let mut command = vec![tool.to_owned(), "run".to_owned(), "--chip".to_owned(), chip];
        if let Some(probe) = device {
            command.push("--probe".to_owned());
            command.push(probe.to_owned());
        }
        command.push(artifact.to_owned());
        assert(command.deep_view() =~= want->0);
        return Some(command);
    }
    if same(tool, "elf2uf2") || same(tool, "elf2uf2-rs") {
        let mut command = vec!["elf2uf2-rs".to_owned()];
        match device {
            Some(volume) => {
                let name = path_name(cut_tail_text(artifact, "/"));
                let mut image = if name.unicode_len() == 0 || same(name, "..") {
                    "firmware".to_owned()
                } else {
                    file_stem(name).to_owned()
                };
                image.append(".uf2");
                command.push(artifact.to_owned());
                command.push(path_from_root(volume, image.as_str()));
            },
            None => {
                command.push("-d".to_owned());
                command.push(artifact.to_owned());
            },
        }
        assert(command.deep_view() =~= want->0);
        return Some(command);
    }
    None
}

/// The directory below a sysroot in which a target's library stands.
pub open spec fn target_lib(target: Seq<char>) -> Seq<char> {
    "lib/rustlib/"@ + trimmed(target) + "/lib"@
}

/// The directory below a sysroot in which a target's library stands.
pub fn target_lib_dir(target: &str) -> (r: String)
    ensures
        r@ == target_lib(target@),
{
    let mut s = "lib/rustlib/".to_owned();
    s.append(trim(target));
    s.append("/lib");
    s
}

/// Whether the toolchain with that sysroot has the target's library.
pub fn target_available_in_sysroot(sysroot: &ProjectTree, target: &str) -> (r: bool)
    ensures
        r == dir_at(sysroot.deep_view(), target_lib(target@)),
{
    sysroot.is_dir(target_lib_dir(target).as_str())
}

/// Some line is the target.
pub open spec fn is_listed(installed: Seq<char>, target: Seq<char>) -> bool {
    let rows = line_seq(installed);
    exists|i: int| 0 <= i < rows.len() && trimmed(#[trigger] rows[i]) == trimmed(target)
}

/// Whether a list of installed targets, one on each line, has the target.
pub fn target_installed_in(installed: &str, target: &str) -> (r: bool)
    ensures
        r == is_listed(installed@, target@),
{
    let rows = lines(installed);
    let ghost all = rows.deep_view();
    let wanted = trim(target);
    let mut i: usize = 0;
    while i < rows.len()
        invariant
            i <= rows@.len(),
            all == rows.deep_view(),
            all == line_seq(installed@),
            wanted@ == trimmed(target@),
            forall|j: int| 0 <= j < i ==> trimmed(#[trigger] all[j]) != wanted@,
        decreases rows@.len() - i,
    {
        if same(trim(rows[i].as_str()), wanted) {
            assert(trimmed(all[i as int]) == trimmed(target@));
            return true;
        }
        i = i + 1;
    }
    false
}

/// Why a build is refused: the toolchain that would run lacks the target, which
/// rustup's own toolchain has or has not.
pub open spec fn missing_target(target: Seq<char>, root: Seq<char>, rustup: Option<Seq<char>>) -> Seq<
    char,
> {
    if rustup matches Some(list) && is_listed(list, target) {
        "the target '"@
            + target
            + "' is installed for rustup's toolchain but not for the toolchain this build will run (sysroot "@
            + root
            + "): `cargo` and `rustc` on PATH are not rustup's — put the directory `rustup which cargo` prints first on PATH, or build through `rustup run <toolchain> cargo`"@
    } else {
        "the target '"@
            + target
            + "' is not installed for the toolchain at "@
            + root
            + ": run `rustup target add "@
            + target
            + "`"@
    }
}

/// The environment of a build: what was asked for, and where the toolchain keeps
/// its own libraries.
pub open spec fn build_env(env: Seq<(Seq<char>, Seq<char>)>, sysroot: Option<ProjectTreeView>) -> Seq<
    (Seq<char>, Seq<char>),
> {
    match sysroot {
        Some(t) => env.push(("DYLD_FALLBACK_LIBRARY_PATH"@, full_path(t.root, "lib"@))),
        None => env,
    }
}

/// The command of a build for a target without an operating system. It is
/// refused where the toolchain lacks the target; a toolchain that could not be
/// asked refuses nothing.
pub fn spec_for_target(
    args: Vec<String>,
    env: Vec<(String, String)>,
    target: &str,
    sysroot: Option<&ProjectTree>,
    rustup_targets: Option<&str>,
) -> (r: Result<BuildSpec, String>)
    ensures
        ({
            let tree = match sysroot {
                Some(t) => Some(t.deep_view()),
                None => None,
            };
            let list = match rustup_targets {
                Some(s) => Some(s@),
                None => None,
            };
            if tree matches Some(t) && !dir_at(t, target_lib(target@)) {
                r matches Err(e) && e@ == missing_target(target@, (tree->0).root, list)
            } else {
                r matches Ok(s) && s.deep_view() == (BuildSpecView {
                    command: "cargo"@,
                    arguments: args.deep_view(),
                    env: build_env(env.deep_view(), tree),
                    working_dir: Seq::empty(),
                })
            }
        }),
{
    let mut env = env;
    if let Some(t) = sysroot {
        let root = t.root.as_str();
        if !target_available_in_sysroot(t, target) {
            let known = match rustup_targets {
                Some(list) => target_installed_in(list, target),
                None => false,
            };
            if known {
                let mut s = "the target '".to_owned();
                s.append(target);
                s.append("' is installed for rustup's toolchain but not for the toolchain this build will run (sysroot ");
                s.append(root);
                s.append("): `cargo` and `rustc` on PATH are not rustup's — put the directory `rustup which cargo` prints first on PATH, or build through `rustup run <toolchain> cargo`");
                return Err(s);
            }
            let mut s = "the target '".to_owned();
            s.append(target);
            s.append("' is not installed for the toolchain at ");
            s.append(root);
            s.append(": run `rustup target add ");
            s.append(target);
            s.append("`");
            return Err(s);
        }
        add_item(&mut env, ("DYLD_FALLBACK_LIBRARY_PATH".to_owned(), path_from_root(root, "lib")));
    }
    let working_dir = String::new();
    assert(working_dir@ =~= Seq::empty());
    Ok(BuildSpec { command: "cargo".to_owned(), arguments: args, env, working_dir })
}

/// The command of a planned build.
pub fn spec_from_target(
    plan: Rp2040Plan,
    sysroot: Option<&ProjectTree>,
    rustup_targets: Option<&str>,
) -> (r: Result<BuildSpec, String>)
    ensures
        ({
            let tree = match sysroot {
                Some(t) => Some(t.deep_view()),
                None => None,
            };
            let list = match rustup_targets {
                Some(s) => Some(s@),
                None => None,
            };
            if tree matches Some(t) && !dir_at(t, target_lib(plan.target@)) {
                r matches Err(e) && e@ == missing_target(plan.target@, (tree->0).root, list)
            } else {
                r matches Ok(s) && s.deep_view() == (BuildSpecView {
                    command: "cargo"@,
                    arguments: plan.args.deep_view(),
                    env: build_env(plan.env.deep_view(), tree),
                    working_dir: Seq::empty(),
                })
            }
        }),
{
    spec_for_target(plan.args, plan.env, plan.target.as_str(), sysroot, rustup_targets)
}

/// The platform that an operation is asked for, or why it is refused.
pub fn rp2040_platform_id(op: &str, opts: &BuildOptions) -> (r: Result<String, String>)
    ensures
        (match opts.platform.deep_view() {
            Some(p) => if trimmed(p).len() > 0 {
                r matches Ok(id) && id@ == trimmed(p)
            } else {
                r matches Err(e) && e@ == "an rp2040 "@ + op@ + " needs a platform, e.g. \"rp2040\""@
            },
            None => r matches Err(e) && e@ == "an rp2040 "@ + op@ + " needs a platform, e.g. \"rp2040\""@,
        }),
{
    if let Some(p) = &opts.platform {
        let id = trim(p.as_str());
        if id.unicode_len() > 0 {
            return Ok(id.to_owned());
        }
    }
    let mut s = "an rp2040 ".to_owned();
    s.append(op);
    s.append(" needs a platform, e.g. \"rp2040\"");
    Err(s)
}

/// The plan of an operation for the platform of that name, or why it is refused;
/// the platform is what the registry has under the name.
pub fn rp2040_platform_plan(id: &str, found: &Option<Platform>, opts: &BuildOptions) -> (r: Result<
    Rp2040Plan,
    String,
>)
    ensures
        (match found.deep_view() {
            None => r matches Err(e) && e@ == "unknown platform '"@ + id@ + "'"@,
            Some(p) => match plan_for(p, opts.deep_view()) {
                Some(plan) => r matches Ok(x) && x.deep_view() == plan,
                None => r matches Err(e) && e@ == "platform '"@ + id@
                    + "' is not an rp2040 platform with a rust.target"@,
            },
        }),
{
    match found {
        None => {
            let mut s = "unknown platform '".to_owned();
            s.append(id);
            s.append("'");
            Err(s)
        },
        Some(p) => match rp2040_plan(p, opts) {
            Some(plan) => Ok(plan),
            None => {
                let mut s = "platform '".to_owned();
                s.append(id);
                s.append("' is not an rp2040 platform with a rust.target");
                Err(s)
            },
        },
    }
}

/// Why a flash is refused, where it is. Everything is refused before any tool
/// runs: no tool declared, no artifact known, none there, or an unknown tool.
pub open spec fn flash_refusal(
    p: PlatformView,
    artifact: Option<Seq<char>>,
    is_file: bool,
    device: Option<Seq<char>>,
) -> Option<Seq<char>> {
    let id = p.id;
    match flash_tool(p) {
        None => Some("platform '"@ + id + "' declares no flash tool (rust.flash), so nothing can flash it"@),
        Some(tool) => match artifact {
            None => Some("cannot tell which binary to flash: Cargo.toml has no [package] name and no package was given — pass artifact=<path> or package=<name>"@),
            Some(artifact) => if !is_file {
                Some("no artifact at "@
                    + artifact
                    + "; build for '"@
                    + id
                    + "' first, or pass artifact=<path> / mode=<profile>"@)
            } else if flash_command(p, artifact, device) is None {
                Some("platform '"@
                    + id
                    + "' names a flash tool this module does not know ('"@
                    + tool
                    + "'): use picotool, probe-rs or elf2uf2-rs"@)
            } else {
                None
            },
        },
    }
}

/// Decides a flash: the command, or why it is refused. The artifact is the
/// binary that was asked for or found, and whether it is there.
pub fn rp2040_flash_decision(
    platform: &Platform,
    artifact: Option<&str>,
    is_file: bool,
    device: Option<&str>,
) -> (r: Result<Vec<String>, String>)
    ensures
        ({
            let a = match artifact {
                Some(s) => Some(s@),
                None => None,
            };
            let d = match device {
                Some(s) => Some(s@),
                None => None,
            };
            match flash_refusal(platform.deep_view(), a, is_file, d) {
                Some(e) => r matches Err(m) && m@ == e,
                None => r matches Ok(c) && a is Some && Some(c.deep_view()) == flash_command(
                    platform.deep_view(),
                    a->0,
                    d,
                ),
            }
        }),
{
    let id = platform.id.as_str();
    let tool = match rp2040_flash_tool(platform) {
        Some(tool) => tool,
        None => {
            let mut s = "platform '".to_owned();
            s.append(id);
            s.append("' declares no flash tool (rust.flash), so nothing can flash it");
            return Err(s);
        },
    };
    let artifact = match artifact {
        Some(artifact) => artifact,
        None => {
            let s = "cannot tell which binary to flash: Cargo.toml has no [package] name and no package was given — pass artifact=<path> or package=<name>".to_owned();
            return Err(s);
        },
    };
    if !is_file {
        let mut s = "no artifact at ".to_owned();
        s.append(artifact);
        s.append("; build for '");
        s.append(id);
        s.append("' first, or pass artifact=<path> / mode=<profile>");
        return Err(s);
    }
    match rp2040_flash_command(platform, artifact, device) {
        Some(command) => Ok(command),
        None => {
            let mut s = "platform '".to_owned();
            s.append(id);
            s.append("' names a flash tool this module does not know ('");
            s.append(tool);
            s.append("'): use picotool, probe-rs or elf2uf2-rs");
            Err(s)
        },
    }
}

/// The command as something to run in the project itself.
pub fn build_spec_from_command(command: &Vec<String>) -> (r: BuildSpec)
    requires
        command.len() > 0,
    ensures
        r.deep_view() == (BuildSpecView {
            command: command.deep_view()[0],
            arguments: command.deep_view().subrange(1, command.deep_view().len() as int),
            env: Seq::empty(),
            working_dir: Seq::empty(),
        }),
{
    let mut arguments: Vec<String> = Vec::new();
    let ghost all = command.deep_view();
    let mut i: usize = 1;
    assert(arguments.deep_view() =~= all.subrange(1, 1));
    while i < command.len()
        invariant
            1 <= i <= command@.len(),
            all == command.deep_view(),
            arguments.deep_view() == all.subrange(1, i as int),
        decreases command@.len() - i,
    {
        add_item(&mut arguments, command[i].clone());
        assert(arguments.deep_view() =~= all.subrange(1, i + 1));
        i = i + 1;
    }
    let env: Vec<(String, String)> = Vec::new();
    assert(env.deep_view() =~= Seq::empty());
    let working_dir = String::new();
    assert(working_dir@ =~= Seq::empty());
    BuildSpec { command: command[0].clone(), arguments, env, working_dir }
}

/// The sysroot that `rustc` printed; `None` where it could not be asked, or
/// printed nothing.
pub fn rustc_sysroot(output: &Option<String>) -> (r: Option<String>)
    ensures
        r.deep_view() == (match output.deep_view() {
            Some(s) => if trimmed(s).len() > 0 {
                Some(trimmed(s))
            } else {
                None
            },
            None => None,
        }),
{
    if let Some(s) = output {
        let path = trim(s.as_str());
        if path.unicode_len() > 0 {
            return Some(path.to_owned());
        }
    }
    None
}

/// The RP2040 build module.
#[derive(Debug, Clone, Copy, PartialEq, Eq, Structural)]
pub struct Rp2040BuildModule;

impl Rp2040BuildModule {
    /// The module.
    pub fn new() -> (r: Self)
        ensures
            r == Rp2040BuildModule,
    {
        Rp2040BuildModule
    }

    /// What the module can do. It names no configuration file: projects reach it by
    /// their platform.
    pub open spec fn capabilities() -> ModuleCapabilityView {
        ModuleCapabilityView {
            name: RP2040_OS@,
            config_files: Seq::empty(),
            build_system: "Cargo (rp2040)"@,
            language: "Rust"@,
            source_extensions: seq!["rs"@],
            supports_clean: false,
            supports_lint: false,
            supports_format: false,
            supports_fix: false,
            supports_flash: true,
            mcp_servers: Seq::empty(),
        }
    }

    /// What the module can do.
    pub fn describe_capabilities(&self) -> (r: ModuleCapability)
        ensures
            r.deep_view() == Self::capabilities(),
    {
        let r = ModuleCapability {
            name: RP2040_OS.to_owned(),
            config_files: Vec::new(),
            build_system: "Cargo (rp2040)".to_owned(),
            language: "Rust".to_owned(),
            source_extensions: vec!["rs".to_owned()],
            supports_clean: false,
            supports_lint: false,
            supports_format: false,
            supports_fix: false,
            supports_flash: true,
            mcp_servers: Vec::new(),
        };
        assert(r.config_files.deep_view() =~= Seq::empty());
        assert(r.source_extensions.deep_view() =~= seq!["rs"@]);
        assert(r.mcp_servers.deep_view() =~= Seq::empty());
        r
    }
}

impl Default for Rp2040BuildModule {
    fn default() -> (r: Self)
        ensures
            r == Rp2040BuildModule,
    {
        Rp2040BuildModule
    }
}

} // verus!
