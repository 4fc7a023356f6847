//! Build directories, compile databases and lint runs of Meson projects.

use vstd::prelude::*;

use crate::command::{
    finished_event, CommandLine, CommandLineView, CommandOutput, CommandOutputView, Plan, PlanView,
};
use crate::json::{
    json_items, members, members_of, parse_json, positions, string_in, string_under, JsonItem,
    JsonItemView, JsonKind,
};
use crate::project::{
    full_path, has_extension, name_of, parent_of, parent_path, path_from_root, path_name, with_extension,
    ProjectTree, ProjectTreeView,
};
use crate::table::{find_key, key_from, put, with_value};
use crate::text::{
    add_item, after, append_texts, begins, chars_of, copy_texts, decimal, ends, ends_with, join, joined,
    number_text, pieces, same, sort, sorted, split, starts_with, tail_of, text_of_all, trim, trimmed,
    word_seq, words,
};
use crate::types::{BuildEvent, BuildEventView};

verus! {

// ---------------------------------------------------------------------------
// Escape sequences
// ---------------------------------------------------------------------------

/// The character is an ASCII letter.
pub open spec fn is_letter(c: char) -> bool {
    ('a' <= c && c <= 'z') || ('A' <= c && c <= 'Z')
}

/// The first `n` characters without escape sequences, and whether the last one
/// stands in a sequence. A sequence ends with the first letter behind its start.
pub open spec fn unescaped_upto(s: Seq<char>, n: int) -> (Seq<char>, bool)
    decreases n,
{
    if n <= 0 {
        (Seq::empty(), false)
    } else {
        let (out, inside) = unescaped_upto(s, n - 1);
        let c = s[n - 1];
        if c == '\u{1b}' {
            (out, true)
        } else if inside {
            (out, !is_letter(c))
        } else {
            (out.push(c), false)
        }
    }
}

/// The text without escape sequences.
pub open spec fn unescaped(s: Seq<char>) -> Seq<char> {
    unescaped_upto(s, s.len() as int).0
}

/// Removes the escape sequences from a compiler's output.
pub fn strip_ansi(text: &str) -> (r: String)
    ensures
        r@ == unescaped(text@),
{
    let chars = chars_of(text);
    let mut out: Vec<char> = Vec::new();
    let mut inside = false;
    let mut i: usize = 0;
    assert(out@ =~= Seq::empty());
    while i < chars.len()
        invariant
            i <= chars@.len(),
            chars@ == text@,
            out@ == unescaped_upto(text@, i as int).0,
            inside == unescaped_upto(text@, i as int).1,
        decreases chars@.len() - i,
    {
        let c = chars[i];
        if c == '\u{1b}' {
            inside = true;
        } else if inside {
            if ('a' <= c && c <= 'z') || ('A' <= c && c <= 'Z') {
                inside = false;
            }
        } else {
            out.push(c);
        }
        i = i + 1;
    }
    text_of_all(&out)
}

// ---------------------------------------------------------------------------
// Build directories
// ---------------------------------------------------------------------------

/// What is known of one entry of a directory.
#[derive(Debug, PartialEq, Eq)]
pub struct BuildDirFacts {
    pub path: String,
    pub name: String,
    pub is_dir: bool,
    /// Whether it holds a compile database.
    pub has_database: bool,
}

/// What a [`BuildDirFacts`] holds.
#[verifier::ext_equal]
pub struct BuildDirFactsView {
    pub path: Seq<char>,
    pub name: Seq<char>,
    pub is_dir: bool,
    pub has_database: bool,
}

impl DeepView for BuildDirFacts {
    type V = BuildDirFactsView;

    open spec fn deep_view(&self) -> BuildDirFactsView {
        BuildDirFactsView {
            path: self.path@,
            name: self.name@,
            is_dir: self.is_dir,
            has_database: self.has_database,
        }
    }
}

impl Clone for BuildDirFacts {
    fn clone(&self) -> (r: Self)
        ensures
            r.deep_view() == self.deep_view(),
    {
        BuildDirFacts {
            path: self.path.clone(),
            name: self.name.clone(),
            is_dir: self.is_dir,
            has_database: self.has_database,
        }
    }
}

/// The entry is a build directory with a compile database, of the wanted name
/// where one is wanted.
pub open spec fn is_build_dir(e: BuildDirFactsView, wanted: Seq<char>) -> bool {
    e.is_dir && begins(e.name, "build"@) && e.has_database && (wanted.len() == 0 || e.name == wanted)
}

/// The path of the first such entry from `k` on.
pub open spec fn build_dir_from(entries: Seq<BuildDirFactsView>, wanted: Seq<char>, k: int) -> Option<
    Seq<char>,
>
    decreases entries.len() - k,
{
    if k < 0 || k >= entries.len() {
        None
    } else if is_build_dir(entries[k], wanted) {
        Some(entries[k].path)
    } else {
        build_dir_from(entries, wanted, k + 1)
    }
}

/// The path of the first such entry in the levels from `k` on, which lead from
/// the project upwards; empty where there is none before a level that cannot be
/// read.
pub open spec fn level_dir_from(
    levels: Seq<Option<Seq<BuildDirFactsView>>>,
    wanted: Seq<char>,
    k: int,
) -> Seq<char>
    decreases levels.len() - k,
{
    if k < 0 || k >= levels.len() {
        Seq::empty()
    } else {
        match levels[k] {
            None => Seq::empty(),
            Some(entries) => match build_dir_from(entries, wanted, 0) {
                Some(path) => path,
                None => level_dir_from(levels, wanted, k + 1),
            },
        }
    }
}

fn find_build_dir(entries: &Vec<BuildDirFacts>, wanted: &str) -> (r: Option<String>)
    ensures
        r.deep_view() == build_dir_from(entries.deep_view(), wanted@, 0),
{
    let ghost all = entries.deep_view();
    let mut k: usize = 0;
    while k < entries.len()
        invariant
            k <= entries@.len(),
            all == entries.deep_view(),
            build_dir_from(all, wanted@, 0) == build_dir_from(all, wanted@, k as int),
        decreases entries@.len() - k,
    {
        let e = &entries[k];
        assert(all[k as int] == e.deep_view());
        if e.is_dir && starts_with(e.name.as_str(), "build") && e.has_database && (
        wanted.unicode_len() == 0 || same(e.name.as_str(), wanted)) {
            return Some(e.path.clone());
        }
        k = k + 1;
    }
    None
}

/// Finds a build directory of the wanted name, or any where none is wanted, in
/// the project or above it. Each level is what its directory holds, `None` where
/// it cannot be read.
pub fn find_named_build_dir(levels: &Vec<Option<Vec<BuildDirFacts>>>, wanted: &str) -> (r: String)
    ensures
        r@ == level_dir_from(levels.deep_view(), wanted@, 0),
{
    let ghost all = levels.deep_view();
    let none = String::new();
    assert(none@ =~= Seq::empty());
    let mut k: usize = 0;
    while k < levels.len()
        invariant
            k <= levels@.len(),
            all == levels.deep_view(),
            none@ == Seq::<char>::empty(),
            level_dir_from(all, wanted@, 0) == level_dir_from(all, wanted@, k as int),
        decreases levels@.len() - k,
    {
        assert(all[k as int] == levels[k as int].deep_view());
        match &levels[k] {
            None => {
                return none;
            },
            Some(entries) => {
                if let Some(path) = find_build_dir(entries, wanted) {
                    return path;
                }
            },
        }
        k = k + 1;
    }
    none
}

/// Finds any build directory with a compile database.
pub fn find_compile_db_dir(levels: &Vec<Option<Vec<BuildDirFacts>>>) -> (r: String)
    ensures
        r@ == level_dir_from(levels.deep_view(), Seq::empty(), 0),
{
    let any = String::new();
    assert(any@ =~= Seq::empty());
    find_named_build_dir(levels, any.as_str())
}

/// The build directory whose compile database a lint uses: that of the platform, or
/// without one any; none where there is no such directory.
pub fn lint_dir(levels: &Vec<Option<Vec<BuildDirFacts>>>, platform: &Option<String>) -> (r: String)
    ensures
        r@ == (match platform.deep_view() {
            Some(plat) => level_dir_from(levels.deep_view(), "build-"@ + plat, 0),
            None => level_dir_from(levels.deep_view(), Seq::empty(), 0),
        }),
{
    match platform {
        Some(plat) => {
            let mut wanted = "build-".to_owned();
            wanted.append(plat.as_str());
            find_named_build_dir(levels, wanted.as_str())
        },
        None => find_compile_db_dir(levels),
    }
}

/// The name of the cross file of a platform.
pub fn cross_file_name(platform: &str) -> (r: String)
    ensures
        r@ == platform@ + "-cross.txt"@,
{
    let mut s = platform.to_owned();
    s.append("-cross.txt");
    s
}

/// The build directory: that of the platform, found or by its name; without a
/// platform any that is found, or `builddir`.
pub open spec fn build_dir_of(
    levels: Seq<Option<Seq<BuildDirFactsView>>>,
    platform: Option<Seq<char>>,
) -> Seq<char> {
    match platform {
        Some(plat) => {
            let found = level_dir_from(levels, "build-"@ + plat, 0);
            if found.len() > 0 {
                found
            } else {
                "build-"@ + plat
            }
        },
        None => {
            let found = level_dir_from(levels, Seq::empty(), 0);
            if found.len() > 0 {
                found
            } else {
                "builddir"@
            }
        },
    }
}

/// The build directory.
pub fn build_dir(levels: &Vec<Option<Vec<BuildDirFacts>>>, platform: &Option<String>) -> (r: String)
    ensures
        r@ == build_dir_of(levels.deep_view(), platform.deep_view()),
{
    match platform {
        Some(plat) => {
            let mut wanted = "build-".to_owned();
            wanted.append(plat.as_str());
            let found = find_named_build_dir(levels, wanted.as_str());
            if found.as_str().unicode_len() > 0 {
                found
            } else {
                wanted
            }
        },
        None => {
            let found = find_compile_db_dir(levels);
            if found.as_str().unicode_len() > 0 {
                found
            } else {
                "builddir".to_owned()
            }
        },
    }
}

/// A Meson command.
pub open spec fn meson_line(args: Seq<Seq<char>>) -> CommandLineView {
    CommandLineView { program: "meson"@, args }
}

/// The arguments that compile in a directory, one target or all.
pub open spec fn compile_args(dir: Seq<char>, target: Option<Seq<char>>) -> Seq<Seq<char>> {
    match target {
        Some(t) => seq!["compile"@, "-C"@, dir, t],
        None => seq!["compile"@, "-C"@, dir],
    }
}

/// The command that compiles in a directory, one target or all.
pub fn compile_command(dir: &str, target: &Option<String>) -> (r: CommandLine)
    ensures
        r.deep_view() == meson_line(compile_args(dir@, target.deep_view())),
{
    let mut args = vec!["compile".to_owned(), "-C".to_owned(), dir.to_owned()];
    if let Some(t) = target {
        args.push(t.clone());
    }
    assert(args.deep_view() =~= compile_args(dir@, target.deep_view()));
    CommandLine { program: "meson".to_owned(), args }
}

/// The command that sets a build directory up for a platform.
pub fn setup_command(dir: &str, root: &str, cross_file: &str, platform: &str) -> (r: CommandLine)
    ensures
        r.deep_view() == meson_line(
            seq![
                "setup"@,
                dir@,
                root@,
                "--cross-file="@ + cross_file@,
                "-Dplatform="@ + platform@,
            ],
        ),
{
    let mut cross = "--cross-file=".to_owned();
    cross.append(cross_file);
    let mut option = "-Dplatform=".to_owned();
    option.append(platform);
    let args = vec!["setup".to_owned(), dir.to_owned(), root.to_owned(), cross, option];
    assert(args.deep_view() =~= seq![
        "setup"@,
        dir@,
        root@,
        "--cross-file="@ + cross_file@,
        "-Dplatform="@ + platform@,
    ]);
    CommandLine { program: "meson".to_owned(), args }
}

/// Whether a build directory must be set up first: it has neither a build plan
/// nor Meson's own data.
pub fn needs_setup(has_ninja_file: bool, has_meson_info: bool) -> (r: bool)
    ensures
        r == (!has_ninja_file && !has_meson_info),
{
    !has_ninja_file && !has_meson_info
}

/// How a setup and the build behind it ended together.
pub fn setup_and_build(
    setup: &CommandOutput,
    build: &CommandOutput,
    cross_file: &str,
    dir: &str,
) -> (r: CommandOutput)
    ensures
        r.deep_view() == (CommandOutputView {
            success: setup.success && build.success,
            command: "meson setup … --cross-file="@ + cross_file@ + " && meson compile -C "@ + dir@,
            output: setup.output@ + "\n"@ + build.output@,
            exit_code: if setup.success && build.success {
                Some(0i32)
            } else if build.exit_code is Some {
                build.exit_code
            } else {
                setup.exit_code
            },
        }),
{
    let success = setup.success && build.success;
    let mut command = "meson setup … --cross-file=".to_owned();
    command.append(cross_file);
    command.append(" && meson compile -C ");
    command.append(dir);
    let mut output = setup.output.clone();
    output.append("\n");
    output.append(build.output.as_str());
    let exit_code = if success {
        Some(0i32)
    } else if build.exit_code.is_some() {
        build.exit_code
    } else {
        setup.exit_code
    };
    CommandOutput { success, command, output, exit_code }
}

/// Why a build for a platform is not started.
pub fn sysroot_failure(platform: &str, reason: &str, sysroot: &str) -> (r: String)
    ensures
        r@ == "platform '"@ + platform@ + "' cross-build blocked: "@ + reason@
            + ". Populate the target sysroot (e.g. "@ + sysroot@
            + "/usr) or fix the platform registry seed before cross-compiling."@,
{
    let mut s = "platform '".to_owned();
    s.append(platform);
    s.append("' cross-build blocked: ");
    s.append(reason);
    s.append(". Populate the target sysroot (e.g. ");
    s.append(sysroot);
    s.append("/usr) or fix the platform registry seed before cross-compiling.");
    s
}

/// The command that tests in a directory.
pub fn test_command(dir: &str) -> (r: CommandLine)
    ensures
        r.deep_view() == meson_line(seq!["test"@, "-C"@, dir@]),
{
    let args = vec!["test".to_owned(), "-C".to_owned(), dir.to_owned()];
    assert(args.deep_view() =~= seq!["test"@, "-C"@, dir@]);
    CommandLine { program: "meson".to_owned(), args }
}

/// What cleaning does: a build directory that was found is cleaned by Meson and
/// never removed; without one the conventional directory is removed directly.
pub fn clean_plan(found: &str) -> (r: Plan)
    ensures
        r.deep_view() == (if found@.len() > 0 {
            PlanView::Run(meson_line(seq!["compile"@, "-C"@, found@, "--clean"@]))
        } else {
            PlanView::Direct
        }),
{
    if found.unicode_len() > 0 {
        let args = vec![
            "compile".to_owned(),
            "-C".to_owned(),
            found.to_owned(),
            "--clean".to_owned(),
        ];
        assert(args.deep_view() =~= seq!["compile"@, "-C"@, found@, "--clean"@]);
        Plan::Run(CommandLine { program: "meson".to_owned(), args })
    } else {
        Plan::Direct
    }
}

/// How the removal of a build directory ended.
pub fn removed_output(dir: &str) -> (r: CommandOutput)
    ensures
        r.deep_view() == (CommandOutputView {
            success: true,
            command: "rm -rf "@ + dir@,
            output: "Removed "@ + dir@,
            exit_code: Some(0i32),
        }),
{
    let mut command = "rm -rf ".to_owned();
    command.append(dir);
    let mut output = "Removed ".to_owned();
    output.append(dir);
    CommandOutput { success: true, command, output, exit_code: Some(0) }
}

// ---------------------------------------------------------------------------
// Compile databases
// ---------------------------------------------------------------------------

/// The flag tells the compiler what a lint has to know too.
pub open spec fn is_kept_flag(flag: Seq<char>) -> bool {
    ||| begins(flag, "-I"@)
    ||| begins(flag, "-D"@)
    ||| begins(flag, "-std="@)
    ||| begins(flag, "-W"@)
    ||| begins(flag, "-f"@)
    ||| begins(flag, "-m"@)
    ||| begins(flag, "-isystem"@)
    ||| begins(flag, "-isysroot"@)
}

/// A flag as it is valid from anywhere: an include path below the command's
/// directory is made absolute.
pub open spec fn settled_flag(flag: Seq<char>, dir: Seq<char>) -> Seq<char> {
    if dir.len() > 0 && begins(flag, "-I"@) && flag.len() > 2 && !begins(after(flag, 2), "/"@) {
        "-I"@ + full_path(dir, after(flag, 2))
    } else {
        flag
    }
}

/// The flags among the first `n` words behind the compiler.
pub open spec fn flags_upto(tokens: Seq<Seq<char>>, dir: Seq<char>, n: int) -> Seq<Seq<char>>
    decreases n,
{
    if n <= 1 {
        Seq::empty()
    } else {
        let done = flags_upto(tokens, dir, n - 1);
        if is_kept_flag(tokens[n - 1]) {
            done.push(settled_flag(tokens[n - 1], dir))
        } else {
            done
        }
    }
}

/// The compiler of a command: its first word, or the second behind a compiler
/// cache.
pub open spec fn compiler_of(tokens: Seq<Seq<char>>) -> Seq<char> {
    if tokens.len() == 0 {
        "c++"@
    } else if ends(tokens[0], "sccache"@) && tokens.len() > 1 {
        tokens[1]
    } else {
        tokens[0]
    }
}

fn settle_flag(flag: &str, dir: &str) -> (r: String)
    ensures
        r@ == settled_flag(flag@, dir@),
{
    if dir.unicode_len() > 0 && starts_with(flag, "-I") && flag.unicode_len() > 2 {
        let path = tail_of(flag, 2);
        if !starts_with(path, "/") {
            let mut s = "-I".to_owned();
            s.append(path_from_root(dir, path).as_str());
            return s;
        }
    }
    flag.to_owned()
}

fn list_flags(tokens: &Vec<String>, dir: &str) -> (r: Vec<String>)
    ensures
        r.deep_view() == flags_upto(tokens.deep_view(), dir@, tokens.deep_view().len() as int),
{
    let ghost all = tokens.deep_view();
    let mut out: Vec<String> = Vec::new();
    assert(out.deep_view() =~= Seq::empty());
    if tokens.len() == 0 {
        return out;
    }
    let mut i: usize = 1;
    while i < tokens.len()
        invariant
            1 <= i <= tokens@.len(),
            all == tokens.deep_view(),
            out.deep_view() == flags_upto(all, dir@, i as int),
        decreases tokens@.len() - i,
    {
        let t = tokens[i].as_str();
        if starts_with(t, "-I") || starts_with(t, "-D") || starts_with(t, "-std=") || starts_with(t, "-W") || starts_with(t, "-f") || starts_with(t, "-m") || starts_with(t, "-isystem") || starts_with(t, "-isysroot") {
            add_item(&mut out, settle_flag(t, dir));
        }
        i = i + 1;
    }
    out
}

fn find_compiler(tokens: &Vec<String>) -> (r: String)
    ensures
        r@ == compiler_of(tokens.deep_view()),
{
    let ghost all = tokens.deep_view();
    if tokens.len() == 0 {
        "c++".to_owned()
    } else if tokens.len() > 1 && ends_with(tokens[0].as_str(), "sccache") {
        tokens[1].clone()
    } else {
        tokens[0].clone()
    }
}

/// The file of a compile command as a path of its own.
pub open spec fn compiled_file(file: Seq<char>, dir: Seq<char>, base: Seq<char>) -> Seq<char> {
    if begins(file, "/"@) {
        file
    } else if dir.len() > 0 {
        full_path(dir, file)
    } else {
        full_path(base, file)
    }
}

/// The text, or an empty one.
pub open spec fn or_blank(s: Option<Seq<char>>) -> Seq<char> {
    match s {
        Some(t) => t,
        None => Seq::empty(),
    }
}

/// A compile database with the first `n` of the commands: flags and compiler by
/// file. Commands without a file or a text are passed over.
pub open spec fn commands_upto(
    items: Seq<JsonItemView>,
    list: Seq<int>,
    base: Seq<char>,
    first: Seq<(Seq<char>, (Seq<Seq<char>>, Seq<char>))>,
    n: int,
) -> Seq<(Seq<char>, (Seq<Seq<char>>, Seq<char>))>
    decreases n,
{
    if n <= 0 {
        first
    } else {
        let done = commands_upto(items, list, base, first, n - 1);
        let k = list[n - 1];
        match (string_under(items, k, "file"@), string_under(items, k, "command"@)) {
            (Some(file), Some(command)) => {
                let dir = or_blank(string_under(items, k, "directory"@));
                let tokens = word_seq(command);
                with_value(
                    done,
                    compiled_file(file, dir, base),
                    (flags_upto(tokens, dir, tokens.len() as int), compiler_of(tokens)),
                )
            },
            _ => done,
        }
    }
}

/// A compile database with the commands of a list of items; they count only where
/// they are an array.
pub open spec fn with_commands(
    items: Seq<JsonItemView>,
    base: Seq<char>,
    first: Seq<(Seq<char>, (Seq<Seq<char>>, Seq<char>))>,
) -> Seq<(Seq<char>, (Seq<Seq<char>>, Seq<char>))> {
    if items.len() > 0 && items[0].kind == JsonKind::List {
        commands_upto(items, members(items, 0), base, first, members(items, 0).len() as int)
    } else {
        first
    }
}

/// Adds the commands of a compile database, from the items of its text.
pub fn add_commands(
    items: &Vec<JsonItem>,
    base: &str,
    table: &mut Vec<(String, (Vec<String>, String))>,
)
    ensures
        final(table).deep_view() == with_commands(
            items.deep_view(),
            base@,
            old(table).deep_view(),
        ),
{
    let ghost all = items.deep_view();
    let ghost first = table.deep_view();
    if items.len() == 0 {
        return ;
    }
    assert(all[0] == items[0].deep_view());
    if items[0].kind != JsonKind::List {
        return ;
    }
    let found = members_of(items, 0);
    let ghost list = positions(found@);
    let mut n: usize = 0;
    while n < found.len()
        invariant
            n <= found@.len(),
            all == items.deep_view(),
            list == positions(found@),
            table.deep_view() == commands_upto(all, list, base@, first, n as int),
        decreases found@.len() - n,
    {
        let k: usize = found[n];
        assert(list[n as int] == k as int);
        if let Some(file) = string_in(items, k, "file") {
            if let Some(command) = string_in(items, k, "command") {
                let dir = match string_in(items, k, "directory") {
                    Some(d) => d,
                    None => {
                        let d = String::new();
                        assert(d@ =~= Seq::empty());
                        d
                    },
                };
                let tokens = words(command.as_str());
                let path = if starts_with(file.as_str(), "/") {
                    file
                } else if dir.as_str().unicode_len() > 0 {
                    path_from_root(dir.as_str(), file.as_str())
                } else {
                    path_from_root(base, file.as_str())
                };
                let row = (list_flags(&tokens, dir.as_str()), find_compiler(&tokens));
                assert(row.deep_view() == (
                    flags_upto(tokens.deep_view(), dir@, tokens.deep_view().len() as int),
                    compiler_of(tokens.deep_view()),
                ));
                put(table, path, row);
            }
        }
        n = n + 1;
    }
}

/// A compile database with the commands of a text; a text that is no JSON adds
/// none.
pub open spec fn with_database(
    content: Seq<char>,
    base: Seq<char>,
    first: Seq<(Seq<char>, (Seq<Seq<char>>, Seq<char>))>,
) -> Seq<(Seq<char>, (Seq<Seq<char>>, Seq<char>))> {
    match json_items(content) {
        Ok(items) => with_commands(items, base, first),
        Err(e) => first,
    }
}

/// Adds the commands of a compile database.
pub fn add_database(content: &str, base: &str, table: &mut Vec<(String, (Vec<String>, String))>)
    ensures
        final(table).deep_view() == with_database(content@, base@, old(table).deep_view()),
{
    match parse_json(content) {
        Ok(items) => add_commands(&items, base, table),
        Err(e) => {},
    }
}

/// One entry of a directory, with the text of the compile database in it where there
/// is one that can be read.
#[derive(Debug, PartialEq, Eq)]
pub struct DatabaseFacts {
    pub name: String,
    pub is_dir: bool,
    pub content: Option<String>,
}

/// What a [`DatabaseFacts`] holds.
#[verifier::ext_equal]
pub struct DatabaseFactsView {
    pub name: Seq<char>,
    pub is_dir: bool,
    pub content: Option<Seq<char>>,
}

impl DeepView for DatabaseFacts {
    type V = DatabaseFactsView;

    open spec fn deep_view(&self) -> DatabaseFactsView {
        DatabaseFactsView { name: self.name@, is_dir: self.is_dir, content: self.content.deep_view() }
    }
}

/// The compile databases of the first `n` entries of a level: those in its build
/// directories.
pub open spec fn level_commands_upto(path: Seq<char>, entries: Seq<DatabaseFactsView>, n: int) -> Seq<
    (Seq<char>, (Seq<Seq<char>>, Seq<char>)),
>
    decreases n,
{
    if n <= 0 {
        Seq::empty()
    } else {
        let done = level_commands_upto(path, entries, n - 1);
        let e = entries[n - 1];
        match e.content {
            Some(c) => if e.is_dir && begins(e.name, "build"@) {
                with_database(c, path, done)
            } else {
                done
            },
            None => done,
        }
    }
}

/// The compile databases of the build directories of a level.
pub fn load_compile_commands_in(path: &str, entries: &Vec<DatabaseFacts>) -> (r: Vec<
    (String, (Vec<String>, String)),
>)
    ensures
        r.deep_view() == level_commands_upto(
            path@,
            entries.deep_view(),
            entries.deep_view().len() as int,
        ),
{
    let ghost all = entries.deep_view();
    let mut table: Vec<(String, (Vec<String>, String))> = Vec::new();
    assert(table.deep_view() =~= Seq::empty());
    let mut i: usize = 0;
    while i < entries.len()
        invariant
            i <= entries@.len(),
            all == entries.deep_view(),
            table.deep_view() == level_commands_upto(path@, all, i as int),
        decreases entries@.len() - i,
    {
        let e = &entries[i];
        assert(all[i as int] == e.deep_view());
        if let Some(c) = &e.content {
            if e.is_dir && starts_with(e.name.as_str(), "build") {
                add_database(c.as_str(), path, &mut table);
            }
        }
        i = i + 1;
    }
    table
}

/// The compile databases of the first level from `k` on that has any.
pub open spec fn commands_from(levels: Seq<(Seq<char>, Seq<DatabaseFactsView>)>, k: int) -> Seq<
    (Seq<char>, (Seq<Seq<char>>, Seq<char>)),
>
    decreases levels.len() - k,
{
    if k < 0 || k >= levels.len() {
        Seq::empty()
    } else {
        let table = level_commands_upto(levels[k].0, levels[k].1, levels[k].1.len() as int);
        if table.len() > 0 {
            table
        } else {
            commands_from(levels, k + 1)
        }
    }
}

/// The compile databases of the project or, where it has none, of the nearest
/// directory above it that has any. Each level is a directory and its entries.
pub fn load_compile_commands(levels: &Vec<(String, Vec<DatabaseFacts>)>) -> (r: Vec<
    (String, (Vec<String>, String)),
>)
    ensures
        r.deep_view() == commands_from(levels.deep_view(), 0),
{
    let ghost all = levels.deep_view();
    let mut k: usize = 0;
    while k < levels.len()
        invariant
            k <= levels@.len(),
            all == levels.deep_view(),
            commands_from(all, 0) == commands_from(all, k as int),
        decreases levels@.len() - k,
    {
        assert(all[k as int] == (levels[k as int].0@, levels[k as int].1.deep_view()));
        let table = load_compile_commands_in(levels[k].0.as_str(), &levels[k].1);
        if table.len() > 0 {
            return table;
        }
        k = k + 1;
    }
    let none: Vec<(String, (Vec<String>, String))> = Vec::new();
    assert(none.deep_view() =~= Seq::empty());
    none
}

/// The compile database of one build directory, or of none: then those that are
/// found from the top of the file system. The content is what reading the
/// directory's file gave, `None` where it cannot be read.
pub fn load_compile_commands_from(
    build_dir: &str,
    content: &Option<String>,
    top: &Vec<(String, Vec<DatabaseFacts>)>,
) -> (r: Vec<(String, (Vec<String>, String))>)
    ensures
        r.deep_view() == (if build_dir@.len() == 0 {
            commands_from(top.deep_view(), 0)
        } else {
            match content.deep_view() {
                Some(c) => with_database(c, build_dir@, Seq::empty()),
                None => Seq::empty(),
            }
        }),
{
    if build_dir.unicode_len() == 0 {
        return load_compile_commands(top);
    }
    let mut table: Vec<(String, (Vec<String>, String))> = Vec::new();
    assert(table.deep_view() =~= Seq::empty());
    if let Some(c) = content {
        add_database(c.as_str(), build_dir, &mut table);
    }
    table
}

// ---------------------------------------------------------------------------
// Source files
// ---------------------------------------------------------------------------

/// Some directory on the way is a build directory or hidden.
pub open spec fn is_out_of_sight(path: Seq<char>) -> bool {
    let parts = pieces(parent_of(path), '/');
    exists|i: int|
        0 <= i < parts.len() && (begins(#[trigger] parts[i], "build"@) || begins(parts[i], "."@))
}

fn is_hidden_path(path: &str) -> (r: bool)
    ensures
        r == is_out_of_sight(path@),
{
    let parts = split(parent_path(path), '/');
    let ghost all = parts.deep_view();
    let mut i: usize = 0;
    while i < parts.len()
        invariant
            i <= parts@.len(),
            all == parts.deep_view(),
            all == pieces(parent_of(path@), '/'),
            forall|j: int|
                0 <= j < i ==> !(begins(#[trigger] all[j], "build"@) || begins(all[j], "."@)),
        decreases parts@.len() - i,
    {
        if starts_with(parts[i].as_str(), "build") || starts_with(parts[i].as_str(), ".") {
            assert(begins(all[i as int], "build"@) || begins(all[i as int], "."@));
            return true;
        }
        i = i + 1;
    }
    false
}

/// The C and C++ sources among the first `n` entries of a tree.
pub open spec fn tree_sources_upto(t: ProjectTreeView, n: int) -> Seq<Seq<char>>
    decreases n,
{
    if n <= 0 {
        Seq::empty()
    } else {
        let done = tree_sources_upto(t, n - 1);
        let e = t.entries[n - 1];
        let name = name_of(e.path);
        if !e.is_dir && !is_out_of_sight(e.path) && (has_extension(name, "c"@) || has_extension(
            name,
            "cc"@,
        ) || has_extension(name, "cpp"@) || has_extension(name, "cxx"@)) {
            done.push(full_path(t.root, e.path))
        } else {
            done
        }
    }
}

/// The keys of a compile database.
pub open spec fn database_files(db: Seq<(Seq<char>, (Seq<Seq<char>>, Seq<char>))>) -> Seq<Seq<char>> {
    Seq::new(db.len(), |i: int| db[i].0)
}

/// The source files of a project in order: those of the compile database, or,
/// where it is empty, those of the tree outside build and hidden directories.
pub open spec fn project_sources(
    t: ProjectTreeView,
    db: Seq<(Seq<char>, (Seq<Seq<char>>, Seq<char>))>,
) -> Seq<Seq<char>> {
    if db.len() > 0 {
        sorted(database_files(db))
    } else {
        sorted(tree_sources_upto(t, t.entries.len() as int))
    }
}

fn list_database_files(db: &Vec<(String, (Vec<String>, String))>) -> (r: Vec<String>)
    ensures
        r.deep_view() == database_files(db.deep_view()),
{
    let ghost all = db.deep_view();
    let ghost one = |i: int| all[i].0;
    let mut out: Vec<String> = Vec::new();
    assert(out.deep_view() =~= Seq::new(0, one));
    let mut i: usize = 0;
    while i < db.len()
        invariant
            i <= db@.len(),
            all == db.deep_view(),
            one == (|i: int| all[i].0),
            out.deep_view() == Seq::new(i as nat, one),
        decreases db@.len() - i,
    {
        assert(all[i as int].0 == db[i as int].0@);
        add_item(&mut out, db[i].0.clone());
        assert(out.deep_view() =~= Seq::new((i + 1) as nat, one));
        i = i + 1;
    }
    assert(out.deep_view() =~= database_files(all));
    out
}

/// The source files of a project in order.
pub fn source_files(tree: &ProjectTree, db: &Vec<(String, (Vec<String>, String))>) -> (r: Vec<String>)
    ensures
        r.deep_view() == project_sources(tree.deep_view(), db.deep_view()),
{
    if db.len() > 0 {
        return sort(&list_database_files(db));
    }
    let ghost t = tree.deep_view();
    let mut out: Vec<String> = Vec::new();
    assert(out.deep_view() =~= Seq::empty());
    let mut i: usize = 0;
    while i < tree.entries.len()
        invariant
            i <= tree.entries@.len(),
            t == tree.deep_view(),
            out.deep_view() == tree_sources_upto(t, i as int),
        decreases tree.entries@.len() - i,
    {
        let e = &tree.entries[i];
        assert(t.entries[i as int] == e.deep_view());
        let path = e.path.as_str();
        let name = path_name(path);
        if !e.is_dir && !is_hidden_path(path) && (with_extension(name, "c") || with_extension(
            name,
            "cc",
        ) || with_extension(name, "cpp") || with_extension(name, "cxx")) {
            add_item(&mut out, path_from_root(tree.root.as_str(), path));
        }
        i = i + 1;
    }
    sort(&out)
}

// ---------------------------------------------------------------------------
// Tools
// ---------------------------------------------------------------------------

/// Where a tool may be.
pub open spec fn tool_places(name: Seq<char>) -> Seq<Seq<char>> {
    seq![
        name,
        "/Library/Developer/CommandLineTools/usr/bin/"@ + name,
        "/Applications/Xcode.app/Contents/Developer/Toolchains/XcodeDefault.xctoolchain/usr/bin/"@ + name,
        "/Applications/Xcode-beta.app/Contents/Developer/Toolchains/XcodeDefault.xctoolchain/usr/bin/"@ + name,
        "/opt/homebrew/bin/"@ + name,
        "/usr/local/bin/"@ + name,
    ]
}

/// Where a tool may be.
pub fn tool_candidates(name: &str) -> (r: Vec<String>)
    ensures
        r.deep_view() == tool_places(name@),
{
    let p0 = name.to_owned();
    let mut p1 = "/Library/Developer/CommandLineTools/usr/bin/".to_owned();
    p1.append(name);
    let mut p2 = "/Applications/Xcode.app/Contents/Developer/Toolchains/XcodeDefault.xctoolchain/usr/bin/".to_owned();
    p2.append(name);
    let mut p3 = "/Applications/Xcode-beta.app/Contents/Developer/Toolchains/XcodeDefault.xctoolchain/usr/bin/".to_owned();
    p3.append(name);
    let mut p4 = "/opt/homebrew/bin/".to_owned();
    p4.append(name);
    let mut p5 = "/usr/local/bin/".to_owned();
    p5.append(name);
    let r = vec![p0, p1, p2, p3, p4, p5];
    assert(r.deep_view() =~= tool_places(name@));
    r
}

/// The first place from `k` on that is there, or the bare name.
pub open spec fn tool_from(name: Seq<char>, there: Seq<bool>, k: int) -> Seq<char>
    decreases there.len() - k,
{
    if k < 0 || k >= there.len() || k >= tool_places(name).len() {
        name
    } else if there[k] {
        tool_places(name)[k]
    } else {
        tool_from(name, there, k + 1)
    }
}

/// Picks the first place of a tool that is there, or the bare name; for each
/// candidate it is given whether it is there.
pub fn tool_path(name: &str, there: &Vec<bool>) -> (r: String)
    ensures
        r@ == tool_from(name@, there@, 0),
{
    let places = tool_candidates(name);
    let ghost all = places.deep_view();
    let mut k: usize = 0;
    while k < there.len() && k < places.len()
        invariant
            k <= there@.len(),
            k <= places@.len(),
            all == places.deep_view(),
            all == tool_places(name@),
            tool_from(name@, there@, 0) == tool_from(name@, there@, k as int),
        decreases there@.len() - k,
    {
        if there[k] {
            assert(all[k as int] == places[k as int]@);
            return places[k].clone();
        }
        k = k + 1;
    }
    name.to_owned()
}

/// The file is a C++ source, by its name.
pub open spec fn is_cpp(file: Seq<char>) -> bool {
    ends(file, ".cpp"@) || ends(file, ".cc"@) || ends(file, ".cxx"@) || ends(file, ".c++"@)
}

/// The first file from `k` on that is the same but for leading directories.
pub open spec fn similar_from(
    db: Seq<(Seq<char>, (Seq<Seq<char>>, Seq<char>))>,
    file: Seq<char>,
    k: int,
) -> Option<int>
    decreases db.len() - k,
{
    if k < 0 || k >= db.len() {
        None
    } else if ends(db[k].0, file) || ends(file, db[k].0) {
        Some(k)
    } else {
        similar_from(db, file, k + 1)
    }
}

/// The command of the compile database for a file: its own, or that of the first
/// file that is the same but for leading directories.
pub open spec fn command_for(
    db: Seq<(Seq<char>, (Seq<Seq<char>>, Seq<char>))>,
    file: Seq<char>,
) -> Option<int> {
    match key_from(db, file, 0) {
        Some(k) => Some(k),
        None => similar_from(db, file, 0),
    }
}

fn find_command(db: &Vec<(String, (Vec<String>, String))>, file: &str) -> (r: Option<usize>)
    ensures
        (match r {
            Some(k) => command_for(db.deep_view(), file@) == Some(k as int) && k < db@.len(),
            None => command_for(db.deep_view(), file@) is None,
        }),
{
    let ghost all = db.deep_view();
    if let Some(k) = find_key(db, file) {
        return Some(k);
    }
    let mut k: usize = 0;
    while k < db.len()
        invariant
            k <= db@.len(),
            all == db.deep_view(),
            key_from(all, file@, 0) is None,
            similar_from(all, file@, 0) == similar_from(all, file@, k as int),
        decreases db@.len() - k,
    {
        assert(all[k as int].0 == db[k as int].0@);
        if ends_with(db[k].0.as_str(), file) || ends_with(file, db[k].0.as_str()) {
            return Some(k);
        }
        k = k + 1;
    }
    None
}

/// The flags that analyse a file without any of its own.
pub open spec fn fallback_flags(file: Seq<char>, db_dir: Seq<char>) -> Seq<Seq<char>> {
    if is_cpp(file) {
        seq!["-I"@ + db_dir, "-stdlib=libc++"@]
    } else {
        seq!["-I"@ + db_dir]
    }
}

/// The command that analyses a file: with the compiler and flags of the compile
/// database, or with the given tools.
pub open spec fn analyzer_line(
    file: Seq<char>,
    db: Seq<(Seq<char>, (Seq<Seq<char>>, Seq<char>))>,
    db_dir: Seq<char>,
    cpp_tool: Seq<char>,
    c_tool: Seq<char>,
) -> CommandLineView {
    let found = command_for(db, file);
    let flags = match found {
        Some(k) => db[k].1.0,
        None => Seq::empty(),
    };
    CommandLineView {
        program: match found {
            Some(k) => db[k].1.1,
            None => if is_cpp(file) {
                cpp_tool
            } else {
                c_tool
            },
        },
        args: seq!["--analyze"@, "-fno-diagnostics-color"@] + (if flags.len() == 0 {
            fallback_flags(file, db_dir)
        } else {
            flags
        }) + seq![file],
    }
}

/// The command that analyses a file.
pub fn analyzer_for_file(
    file: &str,
    db: &Vec<(String, (Vec<String>, String))>,
    db_dir: &str,
    cpp_tool: &str,
    c_tool: &str,
) -> (r: CommandLine)
    ensures
        r.deep_view() == analyzer_line(file@, db.deep_view(), db_dir@, cpp_tool@, c_tool@),
{
    let ghost all = db.deep_view();
    let cpp = ends_with(file, ".cpp") || ends_with(file, ".cc") || ends_with(file, ".cxx")
        || ends_with(file, ".c++");
    let found = find_command(db, file);
    let mut flags: Vec<String> = Vec::new();
    assert(flags.deep_view() =~= Seq::empty());
    let program = match found {
        Some(k) => {
            assert(all[k as int] == (db[k as int].0@, db[k as int].1.deep_view()));
            assert(db[k as int].1.deep_view() == (
                db[k as int].1.0.deep_view(),
                db[k as int].1.1@,
            ));
            flags = copy_texts(&db[k].1.0);
            db[k].1.1.clone()
        },
        None => if cpp {
            cpp_tool.to_owned()
        } else {
            c_tool.to_owned()
        },
    };
    if flags.len() == 0 {
        let mut s = "-I".to_owned();
        s.append(db_dir);
        add_item(&mut flags, s);
        if cpp {
            add_item(&mut flags, "-stdlib=libc++".to_owned());
        }
        assert(flags.deep_view() =~= fallback_flags(file@, db_dir@));
    }
    let mut args = vec!["--analyze".to_owned(), "-fno-diagnostics-color".to_owned()];
    assert(args.deep_view() =~= seq!["--analyze"@, "-fno-diagnostics-color"@]);
    append_texts(&mut args, &flags);
    add_item(&mut args, file.to_owned());
    let r = CommandLine { program, args };
    assert(r.deep_view() =~= analyzer_line(file@, all, db_dir@, cpp_tool@, c_tool@));
    r
}

// ---------------------------------------------------------------------------
// Lint runs
// ---------------------------------------------------------------------------

/// What a lint has found so far.
#[derive(Debug, PartialEq, Eq)]
pub struct LintState {
    pub success: bool,
    pub lines: Vec<String>,
}

/// What a [`LintState`] holds.
#[verifier::ext_equal]
pub struct LintStateView {
    pub success: bool,
    pub lines: Seq<Seq<char>>,
}

impl DeepView for LintState {
    type V = LintStateView;

    open spec fn deep_view(&self) -> LintStateView {
        LintStateView {
            success: self.success,
            lines: self.lines.deep_view(),
        }
    }
}

/// What an analysis printed, as a lint reports it.
pub open spec fn lint_text(output: Seq<char>) -> Seq<char> {
    trimmed(unescaped(output))
}

/// A lint after one more file. The outcome is whether the analysis succeeded and
/// what it printed, or why it could not be started.
pub open spec fn after_file(state: LintStateView, outcome: Result<(bool, Seq<char>), Seq<char>>) -> LintStateView {
    match outcome {
        Ok(o) => LintStateView {
            success: state.success && o.0,
            lines: if lint_text(o.1).len() > 0 {
                state.lines.push(lint_text(o.1))
            } else {
                state.lines
            },
        },
        Err(e) => LintStateView { success: false, lines: state.lines.push(e) },
    }
}

/// An outcome as its texts.
pub open spec fn outcome_view(outcome: Result<(bool, String), String>) -> Result<
    (bool, Seq<char>),
    Seq<char>,
> {
    match outcome {
        Ok(o) => Ok((o.0, o.1@)),
        Err(e) => Err(e@),
    }
}

/// A lint that has seen no file.
pub fn start_lint() -> (r: LintState)
    ensures
        r.deep_view() == (LintStateView { success: true, lines: Seq::empty() }),
{
    let r = LintState { success: true, lines: Vec::new() };
    assert(r.lines.deep_view() =~= Seq::empty());
    r
}

/// The event of one file of a lint: an error as soon as some file has failed.
pub open spec fn file_event(
    file: Seq<char>,
    success: bool,
    outcome: Result<(bool, Seq<char>), Seq<char>>,
) -> BuildEventView {
    BuildEventView {
        line: match outcome {
            Ok(o) => if lint_text(o.1).len() == 0 {
                "[Lint] "@ + file + ": no issues"@
            } else {
                "[Lint] "@ + file + ":\n"@ + lint_text(o.1)
            },
            Err(e) => "[Lint] "@ + file + ": "@ + e,
        },
        level: if success {
            "info"@
        } else {
            "error"@
        },
        target: Some(file),
        file: Some(file),
        line_number: None,
        message: None,
        detail: None,
    }
}

/// Takes note of how the analysis of a file ended, and says what is reported.
pub fn note_file(state: &mut LintState, file: &str, outcome: &Result<(bool, String), String>) -> (r: BuildEvent)
    ensures
        final(state).deep_view() == after_file(old(state).deep_view(), outcome_view(*outcome)),
        r.deep_view() == file_event(
            file@,
            after_file(old(state).deep_view(), outcome_view(*outcome)).success,
            outcome_view(*outcome),
        ),
{
    let mut line = "[Lint] ".to_owned();
    line.append(file);
    match outcome {
        Ok(o) => {
            let plain = strip_ansi(o.1.as_str());
            let text = trim(plain.as_str());
            if text.unicode_len() > 0 {
                add_item(&mut state.lines, text.to_owned());
                line.append(":\n");
                line.append(text);
            } else {
                line.append(": no issues");
            }
            if !o.0 {
                state.success = false;
            }
        },
        Err(e) => {
            add_item(&mut state.lines, e.clone());
            state.success = false;
            line.append(": ");
            line.append(e.as_str());
        },
    }
    let level = if state.success {
        "info"
    } else {
        "error"
    };
    BuildEvent {
        line,
        level: level.to_owned(),
        target: Some(file.to_owned()),
        file: Some(file.to_owned()),
        line_number: None,
        message: None,
        detail: None,
    }
}

/// How a lint of the given number of files ended.
pub open spec fn lint_result(count: int, state: LintStateView) -> CommandOutputView {
    CommandOutputView {
        success: state.success,
        command: "clang --analyze (static analyzer)"@,
        output: if state.lines.len() == 0 {
            "clang static analyzer: analyzed "@ + decimal(count) + " files; no issues reported"@
        } else {
            "clang static analyzer: analyzed "@ + decimal(count) + " files\n"@ + joined(
                state.lines,
                "\n---\n"@,
            )
        },
        exit_code: Some(
            if state.success {
                0i32
            } else {
                1i32
            },
        ),
    }
}

/// How a lint of the given number of files ended.
pub fn lint_output(count: usize, state: &LintState) -> (r: CommandOutput)
    ensures
        r.deep_view() == lint_result(count as int, state.deep_view()),
{
    let mut output = "clang static analyzer: analyzed ".to_owned();
    output.append(number_text(count).as_str());
    if state.lines.len() == 0 {
        output.append(" files; no issues reported");
    } else {
        output.append(" files\n");
        output.append(join(&state.lines, "\n---\n").as_str());
    }
    let code: i32 = if state.success {
        0
    } else {
        1
    };
    CommandOutput {
        success: state.success,
        command: "clang --analyze (static analyzer)".to_owned(),
        output,
        exit_code: Some(code),
    }
}

/// The event that closes a lint.
pub fn lint_finished(path: &str) -> (r: BuildEvent)
    ensures
        r.deep_view() == finished_event("Finished lint "@ + path@),
{
    let mut line = "Finished lint ".to_owned();
    line.append(path);
    BuildEvent {
        line,
        level: "finished".to_owned(),
        target: None,
        file: None,
        line_number: None,
        message: None,
        detail: None,
    }
}

/// What a step over sources reports where there are none.
pub fn no_sources(command: &str, verb: &str) -> (r: CommandOutput)
    ensures
        r.deep_view() == (CommandOutputView {
            success: true,
            command: command@,
            output: "No C/C++ source files to "@ + verb@,
            exit_code: Some(0i32),
        }),
{
    let mut output = "No C/C++ source files to ".to_owned();
    output.append(verb);
    CommandOutput { success: true, command: command.to_owned(), output, exit_code: Some(0) }
}

/// The command that checks the formatting of the files.
pub fn format_command(tool: &str, files: &Vec<String>) -> (r: CommandLine)
    ensures
        r.deep_view() == (CommandLineView {
            program: tool@,
            args: seq!["--dry-run"@, "--Werror"@] + files.deep_view(),
        }),
{
    let mut args = vec!["--dry-run".to_owned(), "--Werror".to_owned()];
    assert(args.deep_view() =~= seq!["--dry-run"@, "--Werror"@]);
    append_texts(&mut args, files);
    CommandLine { program: tool.to_owned(), args }
}

/// The command that formats the files in place.
pub fn fix_command(tool: &str, files: &Vec<String>) -> (r: CommandLine)
    ensures
        r.deep_view() == (CommandLineView {
            program: tool@,
            args: seq!["-i"@] + files.deep_view(),
        }),
{
    let mut args = vec!["-i".to_owned()];
    assert(args.deep_view() =~= seq!["-i"@]);
    append_texts(&mut args, files);
    CommandLine { program: tool.to_owned(), args }
}

} // verus!
