//! What the analysis of a Meson project finds: laws over targets, sources and
//! dependencies.

use vstd::prelude::*;

use crate::contract::paren_from;
use crate::laws_table::last_value_is_found;
use crate::meson::{
    assigned_names, block_at, block_vars, captured, captured_upto, files_in, gathered_upto, global_files_upto,
    held, is_impl_path, kind_targets_upto, lists_in, local_files_upto, part_from, reached, resolved_upto,
    section_at, shape_of, shared_files, shared_vars, shared_vars_upto, solid_upto, source_units, subdir_text,
    target_dependencies, target_files, targets_in, variables_in, with_kind, with_statement, word_at,
};
use crate::migration::without_comments;
use crate::project::ProjectTreeView;
use crate::regexes::{group_text, is_matched, matches_of};
use crate::table::{keyed, value_at};
use crate::text::{begins, distinct, distinct_keeps_members, in_order, push_contains, sorted, sorted_is_ordered_permutation, trimmed};
use crate::types::{BuildTargetView, SourceRole, SourceUnitView};

verus! {

// ---------------------------------------------------------------------------
// Targets
// ---------------------------------------------------------------------------

/// The names of the targets are there and differ.
pub open spec fn told_apart(targets: Seq<BuildTargetView>) -> bool {
    &&& forall|i: int| 0 <= i < targets.len() ==> (#[trigger] targets[i]).name.len() > 0
    &&& forall|i: int, j: int|
        0 <= i < j < targets.len() ==> (#[trigger] targets[i]).name != (#[trigger] targets[j]).name
}

/// A target has the name.
pub open spec fn is_declared(targets: Seq<BuildTargetView>, name: Seq<char>) -> bool {
    exists|i: int| 0 <= i < targets.len() && (#[trigger] targets[i]).name == name
}

type Parts = Seq<(Seq<char>, usize, usize)>;

proof fn kind_keeps_apart(
    text: Seq<char>,
    parts: Parts,
    kind: Seq<char>,
    first: Seq<BuildTargetView>,
    ms: Seq<Seq<Option<(usize, usize)>>>,
    n: int,
)
    requires
        told_apart(first),
        0 <= n <= ms.len(),
    ensures
        told_apart(kind_targets_upto(text, parts, kind, first, ms, n)),
        first.is_prefix_of(kind_targets_upto(text, parts, kind, first, ms, n)),
        forall|i: int|
            first.len() <= i < kind_targets_upto(text, parts, kind, first, ms, n).len() ==> (
            #[trigger] kind_targets_upto(text, parts, kind, first, ms, n)[i]).kind == seq![kind],
    decreases n,
{
    if n > 0 {
        kind_keeps_apart(text, parts, kind, first, ms, n - 1);
        let done = kind_targets_upto(text, parts, kind, first, ms, n - 1);
        let now = kind_targets_upto(text, parts, kind, first, ms, n);
        if now != done {
            assert forall|i: int, j: int| 0 <= i < j < now.len() implies (#[trigger] now[i]).name != (
            #[trigger] now[j]).name by {
                assert(now[i] == done[i]);
                if j < done.len() {
                    assert(now[j] == done[j]);
                }
            }
        }
    }
}

proof fn call_is_found(
    text: Seq<char>,
    parts: Parts,
    kind: Seq<char>,
    first: Seq<BuildTargetView>,
    ms: Seq<Seq<Option<(usize, usize)>>>,
    n: int,
    k: int,
)
    requires
        0 <= k < n <= ms.len(),
        group_text(text, ms[k], 1) is Some,
        trimmed(group_text(text, ms[k], 1)->0).len() > 0,
    ensures
        is_declared(
            kind_targets_upto(text, parts, kind, first, ms, n),
            trimmed(group_text(text, ms[k], 1)->0),
        ),
    decreases n,
{
    let name = trimmed(group_text(text, ms[k], 1)->0);
    let done = kind_targets_upto(text, parts, kind, first, ms, n - 1);
    let now = kind_targets_upto(text, parts, kind, first, ms, n);
    if k < n - 1 {
        call_is_found(text, parts, kind, first, ms, n - 1, k);
        let i = choose|i: int| 0 <= i < done.len() && (#[trigger] done[i]).name == name;
        assert(now[i].name == name);
    } else if !crate::meson::has_target(done, name) {
        assert(now[done.len() as int].name == name);
    }
}

/// No two targets have the same name, and none is without one.
pub proof fn targets_are_told_apart(text: Seq<char>, parts: Parts)
    ensures
        told_apart(targets_in(text, parts)),
{
    all_kinds(text, parts);
}

proof fn kind_added(
    text: Seq<char>,
    parts: Parts,
    kind: Seq<char>,
    pattern: Seq<char>,
    first: Seq<BuildTargetView>,
)
    requires
        told_apart(first),
    ensures
        told_apart(with_kind(text, parts, kind, pattern, first)),
        first.is_prefix_of(with_kind(text, parts, kind, pattern, first)),
{
    let ms = matches_of(pattern, text);
    kind_keeps_apart(text, parts, kind, first, ms, ms.len() as int);
}

proof fn all_kinds(text: Seq<char>, parts: Parts)
    ensures
        told_apart(targets_in(text, parts)),
        with_kind(text, parts, "executable"@, "executable\\s*\\(\\s*['\"]([^'\"]+)['\"]"@, Seq::empty()).is_prefix_of(
            targets_in(text, parts),
        ),
{
    let none = Seq::<BuildTargetView>::empty();
    let p0 = "executable\\s*\\(\\s*['\"]([^'\"]+)['\"]"@;
    let p1 = "(?:^|[^[:alnum:]_])library\\s*\\(\\s*['\"]([^'\"]+)['\"]"@;
    let p2 = "shared_library\\s*\\(\\s*['\"]([^'\"]+)['\"]"@;
    let p3 = "static_library\\s*\\(\\s*['\"]([^'\"]+)['\"]"@;
    let p4 = "both_libraries\\s*\\(\\s*['\"]([^'\"]+)['\"]"@;
    let p5 = "jar\\s*\\(\\s*['\"]([^'\"]+)['\"]"@;
    let p6 = "shared_module\\s*\\(\\s*['\"]([^'\"]+)['\"]"@;
    let f0 = with_kind(text, parts, "executable"@, p0, none);
    let f1 = with_kind(text, parts, "library"@, p1, f0);
    let f2 = with_kind(text, parts, "shared_library"@, p2, f1);
    let f3 = with_kind(text, parts, "static_library"@, p3, f2);
    let f4 = with_kind(text, parts, "both_libraries"@, p4, f3);
    let f5 = with_kind(text, parts, "jar"@, p5, f4);
    let f6 = with_kind(text, parts, "shared_module"@, p6, f5);
    kind_added(text, parts, "executable"@, p0, none);
    kind_added(text, parts, "library"@, p1, f0);
    kind_added(text, parts, "shared_library"@, p2, f1);
    kind_added(text, parts, "static_library"@, p3, f2);
    kind_added(text, parts, "both_libraries"@, p4, f3);
    kind_added(text, parts, "jar"@, p5, f4);
    kind_added(text, parts, "shared_module"@, p6, f5);
    assert(targets_in(text, parts) == f6);
    assert(f0.is_prefix_of(f1) && f1.is_prefix_of(f2) && f2.is_prefix_of(f3));
    assert(f0 =~= f6.subrange(0, f0.len() as int));
}

/// Every call that declares an executable under a name gives a target of that name,
/// and it is an executable.
pub proof fn every_executable_is_a_target(text: Seq<char>, parts: Parts, k: int)
    requires
        0 <= k < matches_of("executable\\s*\\(\\s*['\"]([^'\"]+)['\"]"@, text).len(),
    ensures
        ({
            let m = matches_of("executable\\s*\\(\\s*['\"]([^'\"]+)['\"]"@, text)[k];
            group_text(text, m, 1) matches Some(name) ==> (trimmed(name).len() > 0 ==> exists|i: int|
                0 <= i < targets_in(text, parts).len() && (#[trigger] targets_in(text, parts)[i]).name == trimmed(name)
                    && targets_in(text, parts)[i].kind == seq!["executable"@])
        }),
{
    let ms = matches_of("executable\\s*\\(\\s*['\"]([^'\"]+)['\"]"@, text);
    all_kinds(text, parts);
    let none = Seq::<BuildTargetView>::empty();
    let found = kind_targets_upto(text, parts, "executable"@, none, ms, ms.len() as int);
    kind_keeps_apart(text, parts, "executable"@, none, ms, ms.len() as int);
    if let Some(name) = group_text(text, ms[k], 1) {
        if trimmed(name).len() > 0 {
            call_is_found(text, parts, "executable"@, none, ms, ms.len() as int, k);
            let i = choose|i: int| 0 <= i < found.len() && (#[trigger] found[i]).name == trimmed(name);
            let all = targets_in(text, parts);
            assert(found[i].kind == seq!["executable"@]);
            assert(all[i] == found[i]);
        }
    }
}

// ---------------------------------------------------------------------------
// Places
// ---------------------------------------------------------------------------

/// The place lies in the part.
pub open spec fn lies_in(part: (Seq<char>, usize, usize), at: int) -> bool {
    part.1 <= at < part.2
}

proof fn first_part(parts: Parts, at: int, from: int, k: int)
    requires
        0 <= from <= k <= parts.len(),
        forall|j: int| from <= j < k ==> !lies_in(#[trigger] parts[j], at),
    ensures
        k < parts.len() && lies_in(parts[k], at) ==> part_from(parts, at, from) == Some(k),
        k == parts.len() ==> part_from(parts, at, from) is None,
    decreases k - from,
{
    if from < k {
        assert(!lies_in(parts[from], at));
        first_part(parts, at, from + 1, k);
    }
}

/// What stands in the build file of a directory belongs to the platform of that
/// directory; what stands in none belongs to the host.
pub proof fn place_belongs_to_its_directory(text: Seq<char>, parts: Parts, at: int, k: int)
    requires
        0 <= at <= text.len(),
        0 <= k <= parts.len(),
        forall|j: int| 0 <= j < k ==> !lies_in(#[trigger] parts[j], at),
        k < parts.len() ==> lies_in(parts[k], at) && parts[k].2 <= text.len(),
    ensures
        k < parts.len() ==> section_at(text, parts, at) == (
            text.subrange(parts[k].1 as int, parts[k].2 as int),
            parts[k].0,
        ),
        k == parts.len() ==> section_at(text, parts, at) == (text.subrange(0, at), "host"@),
{
    first_part(parts, at, 0, k);
}

proof fn parts_are_files(
    t: ProjectTreeView,
    content: Seq<char>,
    ms: Seq<Seq<Option<(usize, usize)>>>,
    n: int,
    k: int,
)
    requires
        0 <= n <= ms.len(),
        gathered_upto(t, content, ms, n).0.len() <= usize::MAX,
        0 <= k < gathered_upto(t, content, ms, n).1.len(),
    ensures
        ({
            let (text, parts) = gathered_upto(t, content, ms, n);
            &&& content.len() <= parts[k].1 <= parts[k].2 <= text.len()
            &&& subdir_text(t, parts[k].0) is Some
            &&& text.subrange(parts[k].1 as int, parts[k].2 as int) == seq!['\n'] + without_comments(
                subdir_text(t, parts[k].0)->0,
            )
        }),
    decreases n,
{
    reveal_strlit("\n");
    if n > 0 {
        gathered_grows(t, content, ms, n - 1);
        let (text, parts) = gathered_upto(t, content, ms, n - 1);
        let (next, more) = gathered_upto(t, content, ms, n);
        if k < parts.len() {
            parts_are_files(t, content, ms, n - 1, k);
            assert(more[k] == parts[k]);
            if next != text {
                let sub = trimmed(group_text(content, ms[n - 1], 1)->0);
                let added = "\n"@ + without_comments(subdir_text(t, sub)->0);
                assert(next =~= text + added);
                assert(next.subrange(parts[k].1 as int, parts[k].2 as int) =~= text.subrange(
                    parts[k].1 as int,
                    parts[k].2 as int,
                ));
            }
        } else {
            let sub = trimmed(group_text(content, ms[n - 1], 1)->0);
            let added = seq!['\n'] + without_comments(subdir_text(t, sub)->0);
            assert("\n"@ =~= seq!['\n']);
            assert(next =~= text + added);
            assert(more[k].1 == text.len() && more[k].2 == next.len());
            assert(next.subrange(text.len() as int, next.len() as int) =~= added);
        }
    }
}

proof fn gathered_grows(t: ProjectTreeView, content: Seq<char>, ms: Seq<Seq<Option<(usize, usize)>>>, n: int)
    ensures
        content.len() <= gathered_upto(t, content, ms, n).0.len(),
        n >= 0 ==> gathered_upto(t, content, ms, n).0.len() <= gathered_upto(t, content, ms, n + 1).0.len(),
    decreases n,
{
    if n > 0 {
        gathered_grows(t, content, ms, n - 1);
    }
    reveal_with_fuel(gathered_upto, 2);
}

/// Each part of the gathered text is the build file of its directory, without its
/// comments, on a line of its own.
pub proof fn each_part_is_the_file_of_its_directory(t: ProjectTreeView, content: Seq<char>, k: int)
    requires
        crate::meson::gathered(t, content).0.len() <= usize::MAX,
        0 <= k < crate::meson::gathered(t, content).1.len(),
    ensures
        ({
            let (text, parts) = crate::meson::gathered(t, content);
            &&& content.len() <= parts[k].1 <= parts[k].2 <= text.len()
            &&& subdir_text(t, parts[k].0) is Some
            &&& text.subrange(parts[k].1 as int, parts[k].2 as int) == seq!['\n'] + without_comments(
                subdir_text(t, parts[k].0)->0,
            )
        }),
{
    let ms = matches_of("subdir\\s*\\(\\s*['\"]([^'\"]+)['\"]"@, content);
    parts_are_files(t, content, ms, ms.len() as int, k);
}

// ---------------------------------------------------------------------------
// Source units
// ---------------------------------------------------------------------------

/// The source is one of the target's own, in the place of an implementation or not.
pub open spec fn has_own(files: Seq<Seq<char>>, shared: Seq<Seq<char>>, hal: bool) -> bool {
    exists|f: Seq<char>| #[trigger] files.contains(f) && !shared.contains(f) && is_impl_path(f) == hal
}

/// A target has an application unit exactly where a source of its own is no
/// implementation, an implementation unit exactly where one is, and a shared unit
/// exactly where it has shared sources; each stands in its place, and there are no
/// others.
pub proof fn units_tell_whose_the_sources_are(
    files: Seq<Seq<char>>,
    shared: Seq<Seq<char>>,
    platform: Seq<char>,
    unit: SourceUnitView,
)
    ensures
        source_units(files, shared, platform).contains(unit) <==> unit.language == "C++"@ && (match unit.role {
            SourceRole::App => has_own(files, shared, false) && unit.path == platform,
            SourceRole::HalImplementation => has_own(files, shared, true) && unit.path == platform + "/hal"@,
            SourceRole::Shared => shared.len() > 0 && unit.path == "toolkit"@,
        }),
{
    own_sources(files, shared, true);
    own_sources(files, shared, false);
    let app = SourceUnitView { role: SourceRole::App, path: platform, language: "C++"@ };
    let hal = SourceUnitView { role: SourceRole::HalImplementation, path: platform + "/hal"@, language: "C++"@ };
    let common = SourceUnitView { role: SourceRole::Shared, path: "toolkit"@, language: "C++"@ };
    let a = if has_own(files, shared, false) {
        seq![app]
    } else {
        Seq::empty()
    };
    let b = if has_own(files, shared, true) {
        seq![hal]
    } else {
        Seq::empty()
    };
    let c = if shared.len() > 0 {
        seq![common]
    } else {
        Seq::empty()
    };
    let all = a + b + c;
    assert(source_units(files, shared, platform) == all);
    if has_own(files, shared, false) {
        assert(all[0] == app);
    }
    if has_own(files, shared, true) {
        assert(all[a.len() as int] == hal);
    }
    if shared.len() > 0 {
        assert(all[(a + b).len() as int] == common);
    }
    if all.contains(unit) {
        let k = choose|k: int| 0 <= k < all.len() && all[k] == unit;
        if k < a.len() {
            assert(all[k] == a[k]);
        } else if k < (a + b).len() {
            assert(all[k] == b[k - a.len()]);
        } else {
            assert(all[k] == c[k - (a + b).len()]);
        }
    }
}

proof fn own_sources(files: Seq<Seq<char>>, shared: Seq<Seq<char>>, impls: bool)
    ensures
        crate::meson::some_file(files, shared, impls) <==> has_own(files, shared, impls),
{
    if has_own(files, shared, impls) {
        let f = choose|f: Seq<char>|
            #[trigger] files.contains(f) && !shared.contains(f) && is_impl_path(f) == impls;
        let i = choose|i: int| 0 <= i < files.len() && files[i] == f;
        assert(!shared.contains(files[i]));
    }
    if crate::meson::some_file(files, shared, impls) {
        let i = choose|i: int|
            0 <= i < files.len() && !shared.contains(#[trigger] files[i]) && is_impl_path(files[i]) == impls;
        assert(files.contains(files[i]));
    }
}

// ---------------------------------------------------------------------------
// Dependencies
// ---------------------------------------------------------------------------

/// A name among those stands for the dependency.
pub open spec fn some_stands_for(
    variables: Seq<(Seq<char>, Seq<char>)>,
    names: Seq<Seq<char>>,
    dependency: Seq<char>,
) -> bool {
    exists|v: Seq<char>| #[trigger] names.contains(v) && value_at(variables, v) == Some(dependency)
}

proof fn resolved_members(
    variables: Seq<(Seq<char>, Seq<char>)>,
    names: Seq<Seq<char>>,
    direct: Seq<Seq<char>>,
    n: int,
    x: Seq<char>,
)
    requires
        0 <= n <= names.len(),
    ensures
        resolved_upto(variables, names, direct, n).contains(x) <==> direct.contains(x) || some_stands_for(
            variables,
            names.take(n),
            x,
        ),
    decreases n,
{
    if n > 0 {
        resolved_members(variables, names, direct, n - 1, x);
        let done = resolved_upto(variables, names, direct, n - 1);
        let v = names[n - 1];
        let before = names.take(n - 1);
        let now = names.take(n);
        assert(now[n - 1] == v);
        if let Some(d) = value_at(variables, v) {
            push_contains(done, d, x);
        }
        if some_stands_for(variables, before, x) {
            let w = choose|w: Seq<char>| #[trigger] before.contains(w) && value_at(variables, w) == Some(x);
            let k = choose|k: int| 0 <= k < before.len() && before[k] == w;
            assert(now[k] == w);
            assert(now.contains(w));
        }
        if some_stands_for(variables, now, x) {
            let w = choose|w: Seq<char>| #[trigger] now.contains(w) && value_at(variables, w) == Some(x);
            let k = choose|k: int| 0 <= k < now.len() && now[k] == w;
            if k < n - 1 {
                assert(before[k] == w);
                assert(before.contains(w));
            }
        }
        assert(now.contains(v));
    } else {
        assert(!some_stands_for(variables, names.take(0), x));
    }
}

/// A target depends on what its call names itself and on what the variables stand for
/// that its call names, directly or through lists; each is told once, in dictionary
/// order.
pub proof fn dependencies_are_those_that_the_call_reaches(section: Seq<char>, block: Seq<char>, x: Seq<char>)
    ensures
        ({
            let direct = captured("(?:dependency|find_library)\\s*\\(\\s*['\"]([^'\"]+)['\"]"@, block);
            let names = reached(lists_in(section), distinct(captured("(?m)([a-z_][a-z0-9_]*)"@, block)));
            let found = target_dependencies(section, block);
            &&& found.contains(x) <==> direct.contains(x) || some_stands_for(variables_in(section), names, x)
            &&& found.no_duplicates()
            &&& in_order(found)
        }),
{
    let direct = captured("(?:dependency|find_library)\\s*\\(\\s*['\"]([^'\"]+)['\"]"@, block);
    let names = reached(lists_in(section), distinct(captured("(?m)([a-z_][a-z0-9_]*)"@, block)));
    let all = resolved_upto(variables_in(section), names, direct, names.len() as int);
    resolved_members(variables_in(section), names, direct, names.len() as int, x);
    assert(names.take(names.len() as int) =~= names);
    sorted_and_distinct(all, x);
}

/// A list, sorted and each text once.
pub proof fn sorted_and_distinct(all: Seq<Seq<char>>, x: Seq<char>)
    ensures
        sorted(distinct(all)).contains(x) <==> all.contains(x),
        sorted(distinct(all)).no_duplicates(),
        in_order(sorted(distinct(all))),
{
    let d = distinct(all);
    let s = sorted(d);
    distinct_keeps_members(all);
    sorted_is_ordered_permutation(d);
    d.lemma_multiset_has_no_duplicates();
    s.lemma_multiset_has_no_duplicates_conv();
    broadcast use vstd::seq_lib::group_to_multiset_ensures;

    assert(d.contains(x) <==> d.to_multiset().count(x) > 0);
    assert(s.contains(x) <==> s.to_multiset().count(x) > 0);
}

/// An assignment sets a list, and one that adds keeps what the list held.
pub proof fn adding_keeps_what_was_held(
    known: Seq<(Seq<char>, Seq<char>)>,
    lists: Seq<(Seq<char>, Seq<Seq<char>>)>,
    section: Seq<char>,
    groups: Seq<Option<(usize, usize)>>,
    var: Seq<char>,
)
    requires
        keyed(lists),
        word_at(section, groups, 1) is None,
        word_at(section, groups, 2) == Some(var),
    ensures
        ({
            let names = assigned_names(
                known,
                lists,
                group_text(section, groups, 4),
                word_at(section, groups, 5),
            );
            let now = value_at(with_statement(known, lists, section, groups), var);
            &&& word_at(section, groups, 3) == Some("+="@) ==> now == Some(held(lists, var) + names)
            &&& word_at(section, groups, 3) != Some("+="@) ==> now == Some(names)
        }),
{
    let names = assigned_names(known, lists, group_text(section, groups, 4), word_at(section, groups, 5));
    last_value_is_found(lists, var, held(lists, var) + names);
    last_value_is_found(lists, var, names);
}

// ---------------------------------------------------------------------------
// Sources
// ---------------------------------------------------------------------------

/// A list variable among those names the source.
pub open spec fn some_lists(
    text: Seq<char>,
    vars: Seq<Seq<char>>,
    pattern: spec_fn(Seq<char>) -> Seq<char>,
    file: Seq<char>,
) -> bool {
    exists|v: Seq<char>| #[trigger] vars.contains(v) && crate::meson::assigned(pattern(v), text).contains(file)
}

proof fn concat_contains<A>(a: Seq<A>, b: Seq<A>, x: A)
    ensures
        (a + b).contains(x) <==> a.contains(x) || b.contains(x),
{
    let s = a + b;
    if a.contains(x) {
        let k = choose|k: int| 0 <= k < a.len() && a[k] == x;
        assert(s[k] == x);
    }
    if b.contains(x) {
        let k = choose|k: int| 0 <= k < b.len() && b[k] == x;
        assert(s[a.len() + k] == x);
    }
    if s.contains(x) {
        let k = choose|k: int| 0 <= k < s.len() && s[k] == x;
        if k < a.len() {
            assert(a[k] == x);
        } else {
            assert(b[k - a.len()] == x);
        }
    }
}

proof fn one_more_list(
    text: Seq<char>,
    vars: Seq<Seq<char>>,
    pattern: spec_fn(Seq<char>) -> Seq<char>,
    file: Seq<char>,
    n: int,
)
    requires
        0 < n <= vars.len(),
    ensures
        some_lists(text, vars.take(n), pattern, file) <==> some_lists(text, vars.take(n - 1), pattern, file)
            || crate::meson::assigned(pattern(vars[n - 1]), text).contains(file),
{
    let before = vars.take(n - 1);
    let now = vars.take(n);
    assert(now =~= before.push(vars[n - 1]));
    assert forall|v: Seq<char>| now.contains(v) <==> before.contains(v) || v == vars[n - 1] by {
        push_contains(before, vars[n - 1], v);
    }
    assert(now.contains(vars[n - 1]));
    if some_lists(text, before, pattern, file) {
        let v = choose|v: Seq<char>|
            #[trigger] before.contains(v) && crate::meson::assigned(pattern(v), text).contains(file);
        assert(now.contains(v));
    }
    if some_lists(text, now, pattern, file) {
        let v = choose|v: Seq<char>|
            #[trigger] now.contains(v) && crate::meson::assigned(pattern(v), text).contains(file);
        if v != vars[n - 1] {
            assert(before.contains(v));
        }
    }
}

proof fn local_members(section: Seq<char>, vars: Seq<Seq<char>>, n: int, file: Seq<char>)
    requires
        0 <= n <= vars.len(),
    ensures
        local_files_upto(section, vars, n).contains(file) <==> some_lists(
            section,
            vars.take(n),
            |v: Seq<char>| crate::meson::any_assignment(v),
            file,
        ),
    decreases n,
{
    let pattern = |v: Seq<char>| crate::meson::any_assignment(v);
    if n > 0 {
        local_members(section, vars, n - 1, file);
        one_more_list(section, vars, pattern, file, n);
        concat_contains(
            local_files_upto(section, vars, n - 1),
            crate::meson::assigned(crate::meson::any_assignment(vars[n - 1]), section),
            file,
        );
    }
}

proof fn global_members(text: Seq<char>, vars: Seq<Seq<char>>, n: int, file: Seq<char>)
    requires
        0 <= n <= vars.len(),
    ensures
        global_files_upto(text, vars, true, n).contains(file) <==> some_lists(
            text,
            vars.take(n),
            |v: Seq<char>| crate::meson::plain_assignment(v),
            file,
        ),
    decreases n,
{
    let pattern = |v: Seq<char>| crate::meson::plain_assignment(v);
    if n > 0 {
        global_members(text, vars, n - 1, file);
        one_more_list(text, vars, pattern, file, n);
        concat_contains(
            global_files_upto(text, vars, true, n - 1),
            crate::meson::assigned(crate::meson::plain_assignment(vars[n - 1]), text),
            file,
        );
    }
}

/// A target's sources are those that its call names, those of the lists that its call
/// names and its own build file fills, and those of the shared lists; each is told
/// once, in dictionary order.
pub proof fn sources_are_those_of_the_call_and_its_lists(
    text: Seq<char>,
    section: Seq<char>,
    block: Seq<char>,
    file: Seq<char>,
)
    ensures
        target_files(text, section, block).contains(file) <==> files_in(block).contains(file) || some_lists(
            section,
            block_vars(block),
            |v: Seq<char>| crate::meson::any_assignment(v),
            file,
        ) || some_lists(
            text,
            shared_vars(text, section, block),
            |v: Seq<char>| crate::meson::plain_assignment(v),
            file,
        ),
        target_files(text, section, block).no_duplicates(),
        in_order(target_files(text, section, block)),
{
    let vars = block_vars(block);
    let shared = shared_vars(text, section, block);
    let own = files_in(block);
    let local = local_files_upto(section, vars, vars.len() as int);
    let global = global_files_upto(text, shared, true, shared.len() as int);
    local_members(section, vars, vars.len() as int, file);
    global_members(text, shared, shared.len() as int, file);
    assert(vars.take(vars.len() as int) =~= vars);
    assert(shared.take(shared.len() as int) =~= shared);
    concat_contains(own, local, file);
    concat_contains(own + local, global, file);
    sorted_and_distinct(own + local + global, file);
}

proof fn shared_members(text: Seq<char>, section: Seq<char>, vars: Seq<Seq<char>>, n: int, v: Seq<char>)
    requires
        0 <= n <= vars.len(),
    ensures
        shared_vars_upto(text, section, vars, n).contains(v) <==> v == "toolkit_sources"@ || v
            == "wifi_provisioning_source"@ || v == "mjpeg_bridge_sources"@ || (vars.take(n).contains(v)
            && !is_matched(crate::meson::any_assignment(v), section) && is_matched(
            crate::meson::plain_assignment(v),
            text,
        )),
    decreases n,
{
    let base = seq!["toolkit_sources"@, "wifi_provisioning_source"@, "mjpeg_bridge_sources"@];
    if n > 0 {
        shared_members(text, section, vars, n - 1, v);
        shared_members(text, section, vars, n - 1, vars[n - 1]);
        let done = shared_vars_upto(text, section, vars, n - 1);
        push_contains(done, vars[n - 1], v);
        assert(vars.take(n) =~= vars.take(n - 1).push(vars[n - 1]));
        push_contains(vars.take(n - 1), vars[n - 1], v);
    } else {
        assert(shared_vars_upto(text, section, vars, n) == base);
        assert(base[0] == "toolkit_sources"@ && base[1] == "wifi_provisioning_source"@ && base[2]
            == "mjpeg_bridge_sources"@);
        assert(!vars.take(0).contains(v));
        if base.contains(v) {
            let k = choose|k: int| 0 <= k < base.len() && base[k] == v;
            assert(k == 0 || k == 1 || k == 2);
        }
    }
}

/// A list is shared by a call exactly where it is one of the project's shared lists,
/// or the call names it, its own build file does not fill it, and the project does.
pub proof fn list_is_shared_where_the_project_fills_it(
    text: Seq<char>,
    section: Seq<char>,
    block: Seq<char>,
    v: Seq<char>,
)
    ensures
        shared_vars(text, section, block).contains(v) <==> v == "toolkit_sources"@ || v
            == "wifi_provisioning_source"@ || v == "mjpeg_bridge_sources"@ || (block_vars(block).contains(v)
            && !is_matched(crate::meson::any_assignment(v), section) && is_matched(
            crate::meson::plain_assignment(v),
            text,
        )),
{
    let vars = block_vars(block);
    shared_members(text, section, vars, vars.len() as int, v);
    assert(vars.take(vars.len() as int) =~= vars);
}

proof fn common_members(text: Seq<char>, vars: Seq<Seq<char>>, n: int, file: Seq<char>)
    requires
        0 <= n <= vars.len(),
    ensures
        global_files_upto(text, vars, false, n).contains(file) <==> some_lists(
            text,
            vars.take(n).filter(|v: Seq<char>| !begins(v, "hal_impl_"@)),
            |v: Seq<char>| crate::meson::plain_assignment(v),
            file,
        ),
    decreases n,
{
    reveal(Seq::filter);
    let pattern = |v: Seq<char>| crate::meson::plain_assignment(v);
    let own = |v: Seq<char>| !begins(v, "hal_impl_"@);
    if n > 0 {
        common_members(text, vars, n - 1, file);
        assert(vars.take(n).drop_last() =~= vars.take(n - 1));
        assert(vars.take(n).last() == vars[n - 1]);
        let kept = vars.take(n - 1).filter(own);
        if own(vars[n - 1]) {
            let all = kept.push(vars[n - 1]);
            assert(vars.take(n).filter(own) == all);
            assert(all.take(all.len() as int) =~= all);
            assert(all.take(all.len() - 1) =~= kept);
            one_more_list(text, all, pattern, file, all.len() as int);
            concat_contains(
                global_files_upto(text, vars, false, n - 1),
                crate::meson::assigned(crate::meson::plain_assignment(vars[n - 1]), text),
                file,
            );
        }
    } else {
        assert(vars.take(0).filter(own) =~= Seq::empty());
    }
}

/// The shared sources of a target are those of its shared lists that are no platform's
/// implementations.
pub proof fn implementations_are_not_shared(
    text: Seq<char>,
    section: Seq<char>,
    block: Seq<char>,
    file: Seq<char>,
)
    ensures
        shared_files(text, section, block).contains(file) <==> some_lists(
            text,
            shared_vars(text, section, block).filter(|v: Seq<char>| !begins(v, "hal_impl_"@)),
            |v: Seq<char>| crate::meson::plain_assignment(v),
            file,
        ),
{
    let shared = shared_vars(text, section, block);
    common_members(text, shared, shared.len() as int, file);
    assert(shared.take(shared.len() as int) =~= shared);
    distinct_keeps_members(global_files_upto(text, shared, false, shared.len() as int));
}

// ---------------------------------------------------------------------------
// The shape of a project
// ---------------------------------------------------------------------------

/// A project with contracts is a HAL project; one without is of a single source where
/// it is built for another platform than the host, and else native.
pub proof fn shape_follows_contracts_and_platforms(interfaces: nat, platforms: Seq<Seq<char>>)
    ensures
        shape_of(interfaces, platforms) is Hal <==> interfaces > 0,
        shape_of(interfaces, platforms) is SingleSource <==> interfaces == 0 && exists|p: Seq<char>|
            #[trigger] platforms.contains(p) && p != "host"@,
        shape_of(interfaces, platforms) is Native <==> interfaces == 0 && forall|p: Seq<char>|
            #[trigger] platforms.contains(p) ==> p == "host"@,
{
    if crate::meson::has_cross_platform(platforms) {
        let i = choose|i: int| 0 <= i < platforms.len() && #[trigger] platforms[i] != "host"@;
        assert(platforms.contains(platforms[i]));
    } else {
        assert forall|p: Seq<char>| #[trigger] platforms.contains(p) implies p == "host"@ by {
            let i = choose|i: int| 0 <= i < platforms.len() && platforms[i] == p;
            assert(platforms[i] == p);
        }
    }
}

proof fn solid_ones(parts: Seq<Seq<char>>, n: int)
    requires
        0 <= n <= parts.len(),
    ensures
        solid_upto(parts, n) == parts.take(n).map_values(|p: Seq<char>| trimmed(p)).filter(
            |p: Seq<char>| p.len() > 0,
        ),
    decreases n,
{
    reveal(Seq::filter);
    let bare = |p: Seq<char>| trimmed(p);
    let some = |p: Seq<char>| p.len() > 0;
    if n > 0 {
        solid_ones(parts, n - 1);
        let now = parts.take(n).map_values(bare);
        assert(now.drop_last() =~= parts.take(n - 1).map_values(bare));
        assert(now.last() == trimmed(parts[n - 1]));
    } else {
        assert(parts.take(0).map_values(bare).filter(some) =~= Seq::empty());
    }
}

/// The platforms that an option documents are what stands between the commas, without
/// the blanks around it and without what is blank.
pub proof fn documented_platforms_stand_between_commas(parts: Seq<Seq<char>>)
    ensures
        solid_upto(parts, parts.len() as int) == parts.map_values(|p: Seq<char>| trimmed(p)).filter(
            |p: Seq<char>| p.len() > 0,
        ),
{
    solid_ones(parts, parts.len() as int);
    assert(parts.take(parts.len() as int) =~= parts);
}

proof fn captured_ones(text: Seq<char>, ms: Seq<Seq<Option<(usize, usize)>>>, n: int)
    requires
        0 <= n <= ms.len(),
    ensures
        captured_upto(text, ms, n) == ms.take(n).filter_map(
            |m: Seq<Option<(usize, usize)>>|
                match group_text(text, m, 1) {
                    Some(g) => if trimmed(g).len() > 0 {
                        Some(trimmed(g))
                    } else {
                        None
                    },
                    None => None,
                },
        ),
    decreases n,
{
    if n > 0 {
        captured_ones(text, ms, n - 1);
        assert(ms.take(n).drop_last() =~= ms.take(n - 1));
        assert(ms.take(n).last() == ms[n - 1]);
    }
}

/// What a pattern captures in a text are the texts of its first group, match by match,
/// without the blanks around them and without blank ones.
pub proof fn captured_is_told_match_by_match(pattern: Seq<char>, text: Seq<char>)
    ensures
        captured(pattern, text) == matches_of(pattern, text).filter_map(
            |m: Seq<Option<(usize, usize)>>|
                match group_text(text, m, 1) {
                    Some(g) => if trimmed(g).len() > 0 {
                        Some(trimmed(g))
                    } else {
                        None
                    },
                    None => None,
                },
        ),
{
    let ms = matches_of(pattern, text);
    captured_ones(text, ms, ms.len() as int);
    assert(ms.take(ms.len() as int) =~= ms);
}

// ---------------------------------------------------------------------------
// Calls
// ---------------------------------------------------------------------------

/// How many more brackets a text opens than it closes.
pub open spec fn open_brackets(s: Seq<char>) -> int {
    s.fold_left(
        0int,
        |d: int, c: char|
            if c == '(' {
                d + 1
            } else if c == ')' {
                d - 1
            } else {
                d
            },
    )
}

proof fn one_more_char(s: Seq<char>, from: int, i: int)
    requires
        0 <= from <= i < s.len(),
    ensures
        open_brackets(s.subrange(from, i + 1)) == open_brackets(s.subrange(from, i)) + if s[i] == '(' {
            1int
        } else if s[i] == ')' {
            -1
        } else {
            0
        },
{
    let now = s.subrange(from, i + 1);
    assert(now.drop_last() =~= s.subrange(from, i));
    assert(now.last() == s[i]);
}

proof fn bracket_closes(s: Seq<char>, from: int, i: int)
    requires
        0 <= from <= i <= s.len(),
        forall|j: int| from <= j <= i ==> open_brackets(#[trigger] s.subrange(from, j)) >= 0,
    ensures
        (match paren_from(s, 1 + open_brackets(s.subrange(from, i)), i) {
            Some(k) => i <= k < s.len() && s[k] == ')' && open_brackets(s.subrange(from, k)) == 0 && forall|j: int|
                from <= j <= k ==> open_brackets(#[trigger] s.subrange(from, j)) >= 0,
            None => forall|j: int| from <= j <= s.len() ==> open_brackets(#[trigger] s.subrange(from, j)) >= 0,
        }),
    decreases s.len() - i,
{
    assert(open_brackets(s.subrange(from, i)) >= 0);
    if i < s.len() {
        one_more_char(s, from, i);
        if !(s[i] == ')' && open_brackets(s.subrange(from, i)) == 0) {
            bracket_closes(s, from, i + 1);
        }
    }
}

/// A call reaches to the bracket that closes it: up to there every bracket that is
/// closed was opened, and all that were opened are closed. A call that nothing closes
/// reaches to the end.
pub proof fn call_ends_with_its_bracket(text: Seq<char>, from: int)
    requires
        0 <= from <= text.len(),
    ensures
        ({
            let call = block_at(text, from);
            &&& call == text.subrange(from, from + call.len())
            &&& forall|j: int| 0 <= j <= call.len() ==> open_brackets(#[trigger] call.take(j)) >= 0
            &&& from + call.len() < text.len() ==> text[from + call.len()] == ')' && open_brackets(call) == 0
        }),
{
    let none = text.subrange(from, from);
    assert(none =~= Seq::empty());
    assert(open_brackets(none) == 0);
    bracket_closes(text, from, from);
    let call = block_at(text, from);
    assert(call =~= text.subrange(from, from + call.len()));
    assert forall|j: int| 0 <= j <= call.len() implies open_brackets(#[trigger] call.take(j)) >= 0 by {
        assert(call.take(j) =~= text.subrange(from, from + j));
    }
}

} // verus!
