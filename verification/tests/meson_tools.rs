//! Build directories, compile databases, tools and lint runs of Meson projects.

use spire_build::command::{CommandOutput, Plan};
use spire_build::meson_tools::{
    add_database, analyzer_for_file, build_dir, clean_plan, compile_command, cross_file_name,
    find_compile_db_dir, find_named_build_dir, fix_command, format_command, lint_dir, lint_finished, lint_output,
    load_compile_commands, load_compile_commands_from, load_compile_commands_in, needs_setup, no_sources,
    note_file, removed_output, setup_and_build, setup_command, source_files, start_lint, strip_ansi,
    sysroot_failure, test_command, tool_candidates, tool_path, BuildDirFacts, DatabaseFacts,
};
use spire_build::project::{Entry, ProjectTree};

fn texts(list: &[&str]) -> Vec<String> {
    list.iter().map(|s| s.to_string()).collect()
}

fn dir(path: &str, has_database: bool) -> BuildDirFacts {
    BuildDirFacts {
        path: path.to_string(),
        name: path.rsplit('/').next().unwrap().to_string(),
        is_dir: true,
        has_database,
    }
}

fn output(success: bool, text: &str, exit_code: Option<i32>) -> CommandOutput {
    CommandOutput { success, command: String::new(), output: text.to_string(), exit_code }
}

const DATABASE: &str = r#"[
  {"directory": "/p/build-native", "command": "sccache c++ -Iinc -I/abs -DX -O2 -std=c++17 -c ../a.cpp", "file": "../a.cpp"},
  {"directory": "", "command": "cc -Wall b.c", "file": "b.c"},
  {"command": "cc", "file": "/x/c.c"},
  {"file": "no-command.c"}
]"#;

#[test]
fn escape_sequences_go() {
    assert_eq!(strip_ansi("\u{1b}[31mred\u{1b}[0m text"), "red text");
    assert_eq!(strip_ansi("plain"), "plain");
    assert_eq!(strip_ansi("\u{1b}[31"), "");
}

#[test]
fn a_build_directory_is_found_upwards() {
    let levels = vec![
        Some(vec![dir("/p/sub/build", false), dir("/p/sub/src", true)]),
        Some(vec![dir("/p/build-rpi5", true), dir("/p/build-native", true)]),
    ];
    assert_eq!(find_compile_db_dir(&levels), "/p/build-rpi5");
    assert_eq!(find_named_build_dir(&levels, "build-native"), "/p/build-native");
    assert_eq!(find_named_build_dir(&levels, "build-other"), "");
    assert_eq!(build_dir(&levels, &Some("native".to_string())), "/p/build-native");
    assert_eq!(build_dir(&levels, &Some("other".to_string())), "build-other");
    assert_eq!(build_dir(&levels, &None), "/p/build-rpi5");
    assert_eq!(build_dir(&Vec::new(), &None), "builddir");
}

#[test]
fn the_way_up_ends_at_what_cannot_be_read() {
    let levels = vec![None, Some(vec![dir("/p/build", true)])];
    assert_eq!(find_compile_db_dir(&levels), "");
}

#[test]
fn commands_are_put_together() {
    let c = compile_command("b", &Some("app".to_string()));
    assert_eq!((c.program.as_str(), c.args), ("meson", texts(&["compile", "-C", "b", "app"])));
    assert_eq!(compile_command("b", &None).args, texts(&["compile", "-C", "b"]));
    assert_eq!(
        setup_command("b", "/p", "/p/b/x-cross.txt", "x").args,
        texts(&["setup", "b", "/p", "--cross-file=/p/b/x-cross.txt", "-Dplatform=x"])
    );
    assert_eq!(test_command("b").args, texts(&["test", "-C", "b"]));
    assert_eq!(
        format_command("clang-format", &texts(&["a.c"])).args,
        texts(&["--dry-run", "--Werror", "a.c"])
    );
    assert_eq!(fix_command("clang-format", &texts(&["a.c"])).args, texts(&["-i", "a.c"]));
    assert!(needs_setup(false, false));
    assert!(!needs_setup(true, false) && !needs_setup(false, true));
}

#[test]
fn a_found_build_directory_is_cleaned_and_not_removed() {
    match clean_plan("/p/build") {
        Plan::Run(line) => assert_eq!(line.args, texts(&["compile", "-C", "/p/build", "--clean"])),
        other => panic!("{other:?}"),
    }
    assert_eq!(clean_plan(""), Plan::Direct);
    let out = removed_output("/p/builddir");
    assert_eq!((out.command.as_str(), out.output.as_str()), ("rm -rf /p/builddir", "Removed /p/builddir"));
    assert!(out.success);
}

#[test]
fn setup_and_build_succeed_together() {
    let r = setup_and_build(&output(true, "s", Some(0)), &output(true, "b", Some(0)), "x", "d");
    assert!(r.success);
    assert_eq!(r.output, "s\nb");
    assert_eq!(r.command, "meson setup … --cross-file=x && meson compile -C d");
    assert_eq!(r.exit_code, Some(0));
    let r = setup_and_build(&output(false, "s", Some(3)), &output(true, "b", None), "x", "d");
    assert!(!r.success);
    assert_eq!(r.exit_code, Some(3));
    let r = setup_and_build(&output(false, "s", Some(3)), &output(false, "b", Some(4)), "x", "d");
    assert_eq!(r.exit_code, Some(4));
}

#[test]
fn a_missing_sysroot_blocks_the_build() {
    assert_eq!(
        sysroot_failure("rpi5", "sysroot missing", "/sys"),
        "platform 'rpi5' cross-build blocked: sysroot missing. Populate the target sysroot (e.g. /sys/usr) or \
         fix the platform registry seed before cross-compiling."
    );
}

#[test]
fn a_compile_database_gives_flags_and_compiler() {
    let mut table = Vec::new();
    add_database(DATABASE, "/base", &mut table);
    assert_eq!(table.len(), 3);
    assert_eq!(table[0].0, "/base/b.c");
    assert_eq!(table[0].1, (texts(&["-Wall"]), "cc".to_string()));
    assert_eq!(table[1].0, "/p/build-native/../a.cpp");
    assert_eq!((table[1].1).0, texts(&["-I/p/build-native/inc", "-I/abs", "-DX", "-std=c++17"]));
    assert_eq!((table[1].1).1, "c++");
    assert_eq!(table[2], ("/x/c.c".to_string(), (Vec::new(), "cc".to_string())));
    let mut none = Vec::new();
    add_database("no json", "/base", &mut none);
    add_database("{}", "/base", &mut none);
    assert!(none.is_empty());
}

#[test]
fn databases_are_looked_for_upwards() {
    let content = DATABASE.to_string();
    let entry = |name: &str, is_dir: bool, text: Option<&str>| DatabaseFacts {
        name: name.to_string(),
        is_dir,
        content: text.map(|t| t.to_string()),
    };
    let entries = vec![entry("build", true, Some("[]")), entry("build-rpi5", true, Some(DATABASE))];
    assert_eq!(load_compile_commands_in("/p", &entries).len(), 3);
    let others = vec![
        entry("out", true, Some(DATABASE)),
        entry("build.txt", false, Some(DATABASE)),
        entry("build", true, None),
    ];
    assert!(load_compile_commands_in("/p", &others).is_empty());
    let levels = vec![("/p/sub".to_string(), others), ("/p".to_string(), entries)];
    let found = load_compile_commands(&levels);
    assert_eq!(found.len(), 3);
    assert!(found.iter().any(|row| row.0 == "/p/b.c"));
    let from = load_compile_commands_from("/p/build", &Some(content), &Vec::new());
    assert!(from.iter().any(|row| row.0 == "/p/build/b.c"));
    assert!(load_compile_commands_from("/p/build", &None, &levels).is_empty());
    assert_eq!(load_compile_commands_from("", &None, &levels).len(), 3);
}

#[test]
fn sources_come_from_the_database_or_the_tree() {
    let entry = |p: &str, is_dir: bool| Entry { path: p.to_string(), is_dir, content: None };
    let t = ProjectTree {
        root: "/p".to_string(),
        entries: vec![
            entry("src", true),
            entry("src/b.cpp", false),
            entry("src/a.c", false),
            entry("src/a.h", false),
            entry("build-x", true),
            entry("build-x/gen.c", false),
            entry(".git", true),
            entry(".git/x.c", false),
        ],
    };
    assert_eq!(source_files(&t, &Vec::new()), texts(&["/p/src/a.c", "/p/src/b.cpp"]));
    let db = vec![("/z.c".to_string(), (Vec::new(), "cc".to_string())), ("/a.c".to_string(), (Vec::new(), "cc".to_string()))];
    assert_eq!(source_files(&t, &db), texts(&["/a.c", "/z.c"]));
}

#[test]
fn a_tool_is_taken_where_it_is() {
    let places = tool_candidates("clang");
    assert_eq!(places.len(), 6);
    assert_eq!(places[0], "clang");
    assert_eq!(places[4], "/opt/homebrew/bin/clang");
    assert_eq!(tool_path("clang", &vec![false, false, false, false, true, true]), "/opt/homebrew/bin/clang");
    assert_eq!(tool_path("clang", &vec![false; 6]), "clang");
}

#[test]
fn a_file_is_analysed_as_it_is_built() {
    let db = vec![("/p/src/a.cpp".to_string(), (texts(&["-DX"]), "c++".to_string()))];
    let own = analyzer_for_file("/p/src/a.cpp", &db, "/p/build", "clang++", "clang");
    assert_eq!(own.program, "c++");
    assert_eq!(own.args, texts(&["--analyze", "-fno-diagnostics-color", "-DX", "/p/src/a.cpp"]));
    let tail = analyzer_for_file("src/a.cpp", &db, "/p/build", "clang++", "clang");
    assert_eq!(tail.program, "c++");
    let cpp = analyzer_for_file("/q/b.cc", &db, "/p/build", "clang++", "clang");
    assert_eq!(cpp.program, "clang++");
    assert_eq!(
        cpp.args,
        texts(&["--analyze", "-fno-diagnostics-color", "-I/p/build", "-stdlib=libc++", "/q/b.cc"])
    );
    let c = analyzer_for_file("/q/b.c", &db, "", "clang++", "clang");
    assert_eq!(c.program, "clang");
    assert_eq!(c.args, texts(&["--analyze", "-fno-diagnostics-color", "-I", "/q/b.c"]));
}

#[test]
fn a_lint_reports_file_by_file() {
    let mut state = start_lint();
    let e = note_file(&mut state, "a.c", &Ok((true, " \u{1b}[0m\n".to_string())));
    assert_eq!(e.line, "[Lint] a.c: no issues");
    assert_eq!(e.level, "info");
    assert_eq!(
        lint_output(1, &state).output,
        "clang static analyzer: analyzed 1 files; no issues reported"
    );
    let e = note_file(&mut state, "b.c", &Ok((false, "warn\n".to_string())));
    assert_eq!(e.line, "[Lint] b.c:\nwarn");
    assert_eq!((e.level.as_str(), e.file), ("error", Some("b.c".to_string())));
    let e = note_file(&mut state, "c.c", &Err("no tool".to_string()));
    assert_eq!(e.line, "[Lint] c.c: no tool");
    let e = note_file(&mut state, "d.c", &Ok((true, String::new())));
    assert_eq!(e.level, "error");
    let out = lint_output(4, &state);
    assert!(!out.success);
    assert_eq!(out.output, "clang static analyzer: analyzed 4 files\nwarn\n---\nno tool");
    assert_eq!(out.exit_code, Some(1));
    assert_eq!(lint_finished("/p").line, "Finished lint /p");
    assert_eq!(no_sources("clang-format", "format").output, "No C/C++ source files to format");
}

#[test]
fn a_lint_uses_the_database_of_its_platform() {
    let entry = |name: &str| BuildDirFacts {
        path: format!("/p/{name}"),
        name: name.to_string(),
        is_dir: true,
        has_database: true,
    };
    let levels = vec![Some(vec![entry("build"), entry("build-rpi5")])];
    assert_eq!(lint_dir(&levels, &Some("rpi5".to_string())), "/p/build-rpi5");
    assert_eq!(lint_dir(&levels, &Some("rock".to_string())), "");
    assert_eq!(lint_dir(&levels, &None), "/p/build");
    assert_eq!(cross_file_name("rpi5"), "rpi5-cross.txt");
}
