//! What is written for a new Meson project is read back from it.

use vstd::prelude::*;

use crate::coverage::is_name_char;
use crate::laws_contract::{one_piece, piece_behind, solid, solid_is_trimmed};
use crate::meson::{
    gathered_upto, has_target, kind_targets_upto, meson_metadata, platform_option, scoped, solid_upto,
    subdir_text, targets_in,
};
use crate::meson_module::{
    cross_of, cross_upto, layout_files, meson_scaffold, options_file, platform_files_upto, platform_pair,
    root_file,
};
use crate::migration::without_comments;
use crate::project::{
    content_at, plain_path, shared_steps, steps_of, steps_up, steps_upto, walked, walked_upto, ProjectTreeView,
};
use crate::regexes::{first_group, group_text, matches_of};
use crate::text::{begins, joined, joined_upto, pieces, trimmed};
use crate::types::{BuildTargetView, ProjectStructure, ScaffoldFileView};

verus! {

/// The text is a word of letters, digits, hyphens and underscores.
pub open spec fn is_word(s: Seq<char>) -> bool {
    s.len() > 0 && forall|i: int| 0 <= i < s.len() ==> is_name_char(#[trigger] s[i]) || s[i] == '-'
}

/// The tree holds the files.
pub open spec fn holds_files(t: ProjectTreeView, files: Seq<ScaffoldFileView>) -> bool {
    forall|i: int|
        0 <= i < files.len() ==> content_at(t, (#[trigger] files[i]).path) == Some(files[i].content)
}

/// The names of a project's targets, one for each platform.
pub open spec fn target_names(name: Seq<char>, plats: Seq<Seq<char>>) -> Seq<Seq<char>> {
    Seq::new(plats.len(), |i: int| name + "-"@ + plats[i])
}

/// The build file of a platform.
pub open spec fn platform_build(name: Seq<char>, plat: Seq<char>) -> Seq<char> {
    platform_pair(name, plat)[0].content
}

/// The top build file with those of the first `n` platforms behind it.
pub open spec fn builds_upto(name: Seq<char>, plats: Seq<Seq<char>>, n: int) -> Seq<char>
    decreases n,
{
    if n <= 0 {
        root_file(name, plats)
    } else {
        builds_upto(name, plats, n - 1) + "\n"@ + platform_build(name, plats[n - 1])
    }
}

/// The first groups of a pattern's matches are the names, in order.
pub open spec fn finds(pattern: Seq<char>, text: Seq<char>, names: Seq<Seq<char>>) -> bool {
    let ms = matches_of(pattern, text);
    ms.len() == names.len() && forall|i: int|
        0 <= i < ms.len() ==> group_text(text, #[trigger] ms[i], 1) == Some(names[i])
}

/// What the patterns of the analysis find in the files of a new project: no comments;
/// in the top build file the project's name and its subdirectories; in the build files
/// together one executable for each platform, and no target of another kind; and in
/// the options file the platforms behind one another.
pub open spec fn patterns_find(name: Seq<char>, plats: Seq<Seq<char>>) -> bool {
    let top = root_file(name, plats);
    let text = builds_upto(name, plats, plats.len() as int);
    &&& without_comments(top) == top
    &&& forall|i: int|
        0 <= i < plats.len() ==> without_comments(platform_build(name, #[trigger] plats[i])) == platform_build(
            name,
            plats[i],
        )
    &&& first_group("project\\s*\\(\\s*['\"]([^'\"]+)['\"]"@, top, 1) == Some(name)
    &&& finds("subdir\\s*\\(\\s*['\"]([^'\"]+)['\"]"@, top, plats)
    &&& finds("executable\\s*\\(\\s*['\"]([^'\"]+)['\"]"@, text, target_names(name, plats))
    &&& matches_of("(?:^|[^[:alnum:]_])library\\s*\\(\\s*['\"]([^'\"]+)['\"]"@, text).len() == 0
    &&& matches_of("shared_library\\s*\\(\\s*['\"]([^'\"]+)['\"]"@, text).len() == 0
    &&& matches_of("static_library\\s*\\(\\s*['\"]([^'\"]+)['\"]"@, text).len() == 0
    &&& matches_of("both_libraries\\s*\\(\\s*['\"]([^'\"]+)['\"]"@, text).len() == 0
    &&& matches_of("jar\\s*\\(\\s*['\"]([^'\"]+)['\"]"@, text).len() == 0
    &&& matches_of("shared_module\\s*\\(\\s*['\"]([^'\"]+)['\"]"@, text).len() == 0
    &&& platform_option(options_file(plats)) matches Some(option) && first_group(
        "(?i)valid\\s+values\\s*:\\s*([A-Za-z0-9_ ,\\-]+)"@,
        option,
        1,
    ) == Some(joined(plats, ", "@))
}

// ---------------------------------------------------------------------------
// Words
// ---------------------------------------------------------------------------

proof fn word_is_plain(s: Seq<char>)
    requires
        is_word(s),
    ensures
        trimmed(s) == s,
        trimmed(" "@ + s) == s,
        !s.contains('/'),
        !s.contains(','),
        !begins(s, ".."@),
        !begins(s, "/"@),
        s != "."@,
        s != ".."@,
        solid(s),
{
    reveal_strlit("..");
    reveal_strlit(".");
    reveal_strlit("/");
    assert(is_name_char(s[0]) || s[0] == '-');
    assert(is_name_char(s.last()) || s.last() == '-');
    solid_is_trimmed(s);
    if s.contains('/') {
        let k = choose|k: int| 0 <= k < s.len() && s[k] == '/';
        assert(is_name_char(s[k]) || s[k] == '-');
    }
    if s.contains(',') {
        let k = choose|k: int| 0 <= k < s.len() && s[k] == ',';
        assert(is_name_char(s[k]) || s[k] == '-');
    }
    if begins(s, ".."@) {
        assert(s.subrange(0, 2)[0] == s[0]);
        assert(".."@[0] == '.');
    }
    if begins(s, "/"@) {
        assert(s.subrange(0, 1)[0] == s[0]);
        assert("/"@[0] == '/');
    }
    assert("."@[0] == '.');
    assert(".."@[0] == '.');
}

proof fn target_name_is_word(name: Seq<char>, plat: Seq<char>)
    requires
        is_word(name),
        is_word(plat),
    ensures
        is_word(name + "-"@ + plat),
{
    reveal_strlit("-");
    let s = name + "-"@ + plat;
    assert forall|i: int| 0 <= i < s.len() implies is_name_char(#[trigger] s[i]) || s[i] == '-' by {
        if i < name.len() {
            assert(s[i] == name[i]);
        } else if i > name.len() {
            assert(s[i] == plat[i - name.len() - 1]);
        }
    }
}

proof fn target_names_differ(name: Seq<char>, a: Seq<char>, b: Seq<char>)
    requires
        name + "-"@ + a == name + "-"@ + b,
    ensures
        a == b,
{
    reveal_strlit("-");
    let x = name + "-"@ + a;
    let y = name + "-"@ + b;
    let n = name.len() + 1;
    assert(x.len() == y.len());
    assert(a =~= x.subrange(n as int, x.len() as int));
    assert(b =~= y.subrange(n as int, y.len() as int));
}

// ---------------------------------------------------------------------------
// Paths
// ---------------------------------------------------------------------------

proof fn walk_begins(a: Seq<Seq<char>>, b: Seq<Seq<char>>, absolute: bool, n: int)
    requires
        0 <= n <= a.len(),
    ensures
        walked_upto(a + b, absolute, n) == walked_upto(a, absolute, n),
    decreases n,
{
    if n > 0 {
        walk_begins(a, b, absolute, n - 1);
    }
}

proof fn walk_goes_down(a: Seq<Seq<char>>, b: Seq<Seq<char>>, absolute: bool, n: int)
    requires
        0 <= n <= b.len(),
        forall|i: int| 0 <= i < b.len() ==> #[trigger] b[i] != ".."@,
    ensures
        walked_upto(a + b, absolute, a.len() + n) == walked(a, absolute) + b.take(n),
    decreases n,
{
    if n > 0 {
        walk_goes_down(a, b, absolute, n - 1);
        assert((a + b)[a.len() + n - 1] == b[n - 1]);
        assert(b.take(n) =~= b.take(n - 1).push(b[n - 1]));
        assert(walked_upto(a + b, absolute, a.len() + n) =~= walked(a, absolute) + b.take(n));
    } else {
        walk_begins(a, b, absolute, a.len() as int);
        assert(walked(a, absolute) + b.take(0) =~= walked(a, absolute));
    }
}

proof fn whole_base_is_shared(a: Seq<Seq<char>>, b: Seq<Seq<char>>, k: int)
    requires
        0 <= k <= a.len(),
    ensures
        shared_steps(a, a + b, k) == a.len(),
    decreases a.len() - k,
{
    if k < a.len() {
        whole_base_is_shared(a, b, k + 1);
    }
}

proof fn build_path_is_plain(root: Seq<char>, plat: Seq<char>)
    requires
        is_word(plat),
    ensures
        plain_path(root, plat + "/meson.build"@) == Some(plat + "/meson.build"@),
{
    reveal_strlit("/meson.build");
    reveal_strlit("meson.build");
    reveal_strlit("/");
    reveal_strlit(".");
    reveal_strlit("..");
    word_is_plain(plat);
    let path = plat + "/meson.build"@;
    let file = "meson.build"@;
    assert(path =~= plat + seq!['/'] + file);
    assert(!file.contains('/'));
    piece_behind(plat, '/', file);
    one_piece(plat, '/', 0, 0);
    assert(plat.subrange(0, plat.len() as int) =~= plat);
    let parts = pieces(path, '/');
    assert(parts =~= seq![plat, file]);
    reveal_with_fuel(steps_upto, 3);
    let steps = steps_of(path);
    assert(steps =~= seq![plat, file]);
    let absolute = begins(root, "/"@);
    let base = walked(steps_of(root), absolute);
    walk_goes_down(steps_of(root), steps, absolute, 2);
    assert(steps.take(2) =~= steps);
    assert((steps_of(root) + steps).len() == steps_of(root).len() + 2);
    let place = walked(steps_of(root) + steps, absolute);
    assert(place == base + steps);
    whole_base_is_shared(base, steps, 0);
    if begins(path, "/"@) {
        assert(path.subrange(0, 1)[0] == path[0]);
        assert(path[0] == plat[0]);
        assert("/"@[0] == '/');
        assert(plat.contains('/'));
    }
    assert(steps_up(0) + place.skip(base.len() as int) =~= steps);
    reveal_with_fuel(joined_upto, 3);
    assert(joined(steps, "/"@) =~= path);
}

// ---------------------------------------------------------------------------
// Files
// ---------------------------------------------------------------------------

proof fn all_are_cross(plats: Seq<Seq<char>>, n: int)
    requires
        0 <= n <= plats.len(),
        !plats.contains("host"@),
    ensures
        cross_upto(plats, n) == plats.take(n),
    decreases n,
{
    if n > 0 {
        all_are_cross(plats, n - 1);
        assert(plats.contains(plats[n - 1]));
        assert(plats.take(n) =~= plats.take(n - 1).push(plats[n - 1]));
    } else {
        assert(plats.take(0) =~= Seq::empty());
    }
}

proof fn platform_file_at(name: Seq<char>, plats: Seq<Seq<char>>, n: int, i: int)
    requires
        0 <= i < n <= plats.len(),
    ensures
        platform_files_upto(name, plats, n).len() == 2 * n,
        platform_files_upto(name, plats, n)[2 * i] == platform_pair(name, plats[i])[0],
    decreases n,
{
    if i < n - 1 {
        platform_file_at(name, plats, n - 1, i);
    } else if n > 1 {
        platform_file_at(name, plats, n - 1, 0);
    } else {
        assert(platform_files_upto(name, plats, 0).len() == 0);
    }
}

/// The files of a new project as the tree has them.
proof fn files_are_there(t: ProjectTreeView, name: Seq<char>, plats: Seq<Seq<char>>)
    requires
        plats.len() > 0,
        !plats.contains("host"@),
        holds_files(t, meson_scaffold(name, plats, ProjectStructure::SingleSource).files),
    ensures
        content_at(t, "meson.build"@) == Some(root_file(name, plats)),
        content_at(t, "meson_options.txt"@) == Some(options_file(plats)),
        forall|i: int|
            0 <= i < plats.len() ==> content_at(t, #[trigger] plats[i] + "/meson.build"@) == Some(
                platform_build(name, plats[i]),
            ),
{
    all_are_cross(plats, plats.len() as int);
    assert(plats.take(plats.len() as int) =~= plats);
    assert(cross_of(plats) == plats);
    let files = layout_files(name, plats, ProjectStructure::SingleSource);
    assert(files == meson_scaffold(name, plats, ProjectStructure::SingleSource).files);
    assert(files[0].path == "meson.build"@);
    assert(files[1].path == "meson_options.txt"@);
    assert forall|i: int| 0 <= i < plats.len() implies content_at(t, #[trigger] plats[i] + "/meson.build"@) == Some(
        platform_build(name, plats[i]),
    ) by {
        platform_file_at(name, plats, plats.len() as int, i);
        assert(files[2 + 2 * i] == platform_pair(name, plats[i])[0]);
    }
}

proof fn builds_are_gathered(t: ProjectTreeView, name: Seq<char>, plats: Seq<Seq<char>>, n: int)
    requires
        0 <= n <= plats.len(),
        forall|i: int| 0 <= i < plats.len() ==> is_word(#[trigger] plats[i]),
        patterns_find(name, plats),
        forall|i: int|
            0 <= i < plats.len() ==> content_at(t, #[trigger] plats[i] + "/meson.build"@) == Some(
                platform_build(name, plats[i]),
            ),
    ensures
        gathered_upto(
            t,
            root_file(name, plats),
            matches_of("subdir\\s*\\(\\s*['\"]([^'\"]+)['\"]"@, root_file(name, plats)),
            n,
        ).0 == builds_upto(name, plats, n),
    decreases n,
{
    if n > 0 {
        builds_are_gathered(t, name, plats, n - 1);
        let top = root_file(name, plats);
        let ms = matches_of("subdir\\s*\\(\\s*['\"]([^'\"]+)['\"]"@, top);
        let plat = plats[n - 1];
        assert(is_word(plat));
        word_is_plain(plat);
        assert(group_text(top, ms[n - 1], 1) == Some(plat));
        build_path_is_plain(t.root, plat);
        assert(content_at(t, plats[n - 1] + "/meson.build"@) == Some(platform_build(name, plat)));
        assert(subdir_text(t, plat) == Some(platform_build(name, plat)));
        assert(without_comments(platform_build(name, plats[n - 1])) == platform_build(name, plat));
    }
}

// ---------------------------------------------------------------------------
// Targets and platforms
// ---------------------------------------------------------------------------

/// The names of targets.
pub open spec fn names_of(targets: Seq<BuildTargetView>) -> Seq<Seq<char>> {
    Seq::new(targets.len(), |i: int| targets[i].name)
}

proof fn executables_are_found(
    text: Seq<char>,
    parts: Seq<(Seq<char>, usize, usize)>,
    ms: Seq<Seq<Option<(usize, usize)>>>,
    names: Seq<Seq<char>>,
    n: int,
)
    requires
        0 <= n <= ms.len(),
        ms.len() == names.len(),
        names.no_duplicates(),
        forall|i: int| 0 <= i < names.len() ==> is_word(#[trigger] names[i]),
        forall|i: int| 0 <= i < ms.len() ==> group_text(text, #[trigger] ms[i], 1) == Some(names[i]),
    ensures
        names_of(kind_targets_upto(text, parts, "executable"@, Seq::empty(), ms, n)) == names.take(n),
    decreases n,
{
    let found = kind_targets_upto(text, parts, "executable"@, Seq::empty(), ms, n);
    if n > 0 {
        executables_are_found(text, parts, ms, names, n - 1);
        let done = kind_targets_upto(text, parts, "executable"@, Seq::empty(), ms, n - 1);
        let name = names[n - 1];
        assert(names_of(done).len() == n - 1);
        assert(is_word(name));
        word_is_plain(name);
        assert(group_text(text, ms[n - 1], 1) == Some(name));
        if has_target(done, name) {
            let k = choose|k: int| 0 <= k < done.len() && (#[trigger] done[k]).name == name;
            assert(names_of(done)[k] == names.take(n - 1)[k]);
            assert(names[k] == names[n - 1]);
        }
        assert(names_of(found) =~= names_of(done).push(name));
        assert(names.take(n) =~= names.take(n - 1).push(name));
    } else {
        assert(names_of(found) =~= names.take(0));
    }
}

proof fn platforms_stand_apart(plats: Seq<Seq<char>>, n: int)
    requires
        1 <= n <= plats.len(),
        forall|i: int| 0 <= i < plats.len() ==> is_word(#[trigger] plats[i]),
    ensures
        pieces(joined_upto(plats, ", "@, n), ',') == Seq::new(
            n as nat,
            |i: int|
                if i == 0 {
                    plats[i]
                } else {
                    " "@ + plats[i]
                },
        ),
    decreases n,
{
    reveal_strlit(", ");
    reveal_strlit(" ");
    let want = Seq::new(
        n as nat,
        |i: int|
            if i == 0 {
                plats[i]
            } else {
                " "@ + plats[i]
            },
    );
    let plat = plats[n - 1];
    assert(is_word(plat));
    word_is_plain(plat);
    if n == 1 {
        one_piece(plat, ',', 0, 0);
        assert(plat.subrange(0, plat.len() as int) =~= plat);
        assert(want =~= seq![plat]);
    } else {
        platforms_stand_apart(plats, n - 1);
        let done = joined_upto(plats, ", "@, n - 1);
        let last = " "@ + plat;
        assert(!last.contains(',')) by {
            if last.contains(',') {
                let k = choose|k: int| 0 <= k < last.len() && last[k] == ',';
                assert(k > 0);
                assert(plat[k - 1] == ',');
            }
        }
        assert(joined_upto(plats, ", "@, n) =~= done + seq![','] + last);
        piece_behind(done, ',', last);
        assert(want =~= pieces(done, ',').push(last));
    }
}

proof fn platforms_are_read(plats: Seq<Seq<char>>, parts: Seq<Seq<char>>, n: int)
    requires
        0 <= n <= plats.len(),
        parts.len() == plats.len(),
        forall|i: int| 0 <= i < plats.len() ==> is_word(#[trigger] plats[i]),
        forall|i: int| 0 <= i < plats.len() ==> #[trigger] parts[i] == plats[i] || parts[i] == " "@ + plats[i],
    ensures
        solid_upto(parts, n) == plats.take(n),
    decreases n,
{
    if n > 0 {
        platforms_are_read(plats, parts, n - 1);
        assert(is_word(plats[n - 1]));
        word_is_plain(plats[n - 1]);
        assert(parts[n - 1] == plats[n - 1] || parts[n - 1] == " "@ + plats[n - 1]);
        assert(plats.take(n) =~= plats.take(n - 1).push(plats[n - 1]));
    } else {
        assert(plats.take(0) =~= Seq::empty());
    }
}

/// What a scaffold writes, the analysis reads back. Let a project's name and its
/// platforms be words, the platforms distinct and none of them the host, and let the
/// patterns of the analysis find in the files what [`patterns_find`] says. Then the
/// analysis of a tree that holds the files finds the project's name, the platforms in
/// order, and one target for each of them.
pub proof fn scaffold_is_read_back(t: ProjectTreeView, name: Seq<char>, plats: Seq<Seq<char>>)
    requires
        is_word(name),
        plats.len() > 0,
        plats.no_duplicates(),
        !plats.contains("host"@),
        forall|i: int| 0 <= i < plats.len() ==> is_word(#[trigger] plats[i]),
        holds_files(t, meson_scaffold(name, plats, ProjectStructure::SingleSource).files),
        patterns_find(name, plats),
    ensures
        ({
            let top = meson_scaffold(name, plats, ProjectStructure::SingleSource).build_content;
            let m = meson_metadata(t, top);
            &&& content_at(t, "meson.build"@) == Some(top)
            &&& m.project_name == Some(name)
            &&& m.platform_targets == plats
            &&& names_of(m.targets) == target_names(name, plats)
        }),
{
    let top = root_file(name, plats);
    let n = plats.len() as int;
    all_are_cross(plats, n);
    assert(plats.take(n) =~= plats);
    assert(meson_scaffold(name, plats, ProjectStructure::SingleSource).build_content == top);
    files_are_there(t, name, plats);
    builds_are_gathered(t, name, plats, n);
    let ms = matches_of("subdir\\s*\\(\\s*['\"]([^'\"]+)['\"]"@, top);
    let (text, parts) = gathered_upto(t, top, ms, ms.len() as int);
    assert(text == builds_upto(name, plats, n));
    let names = target_names(name, plats);
    assert forall|i: int| 0 <= i < names.len() implies is_word(#[trigger] names[i]) by {
        assert(is_word(plats[i]));
        target_name_is_word(name, plats[i]);
    }
    assert forall|i: int, j: int| 0 <= i < j < names.len() implies names[i] != names[j] by {
        if names[i] == names[j] {
            target_names_differ(name, plats[i], plats[j]);
        }
    }
    let found = matches_of("executable\\s*\\(\\s*['\"]([^'\"]+)['\"]"@, text);
    executables_are_found(text, parts, found, names, n);
    assert(names.take(n) =~= names);
    let targets = targets_in(text, parts);
    assert(targets == kind_targets_upto(text, parts, "executable"@, Seq::empty(), found, n));
    assert(names_of(scoped(targets)) =~= names_of(targets));
    platforms_stand_apart(plats, n);
    let values = pieces(joined(plats, ", "@), ',');
    platforms_are_read(plats, values, n);
}

} // verus!
