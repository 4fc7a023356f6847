//! Where a migration ends: the layout of a project once its plan was carried out.

use vstd::prelude::*;

use crate::coverage::is_skipped;
use crate::laws_migration::{
    after_moves, all_move, dir_is_untouched, dir_member, entry_in_range, header_in_listing, is_part,
    is_platform_move, joined_has_slash, joined_parts, last_slash, listed_name, misplaced_moves_out,
    moved_or_stays, moved_path, moves_out, name_is_listed, named_entries, nothing_is_left_behind, path_parts,
    places, places_apart, platform_is_empty, same_place, source_in_listing, stood_there,
};
use crate::migration::{
    any_source, has_canonical, has_legacy, hpp_names, is_any_source, is_source, layout_of, legacy_impls,
    legacy_wiring, listing, misplaced, plan_of, rewires, rewires_upto, rewritten_meson, root_dirs,
    stale_refs, top_edit, BuildFileEditView, HalLayout, HalMigrationPlanView, WriteFileView,
};
use crate::project::{
    content_at, dir_at, entry_from, exists_at, has_extension, name_of, names_in, parent_of,
    path_join, EntryView, ProjectTreeView,
};
use crate::text::{begins, find_last};

verus! {

/// The text of a build file once the edits from `k` on were made: each only where the
/// text is the one that it was planned for.
pub open spec fn edited(edits: Seq<BuildFileEditView>, path: Seq<char>, text: Seq<char>, k: int) -> Seq<char>
    decreases edits.len() - k,
{
    if k < 0 || k >= edits.len() {
        text
    } else if edits[k].file == path && edits[k].before == text {
        edits[k].after
    } else {
        edited(edits, path, text, k + 1)
    }
}

/// What is written to the path, from entry `k` of the plan on.
pub open spec fn written(writes: Seq<WriteFileView>, path: Seq<char>, k: int) -> Option<Seq<char>>
    decreases writes.len() - k,
{
    if k < 0 || k >= writes.len() {
        None
    } else if writes[k].path == path {
        Some(writes[k].content)
    } else {
        written(writes, path, k + 1)
    }
}

/// What a file holds once a plan was carried out.
pub open spec fn new_content(
    plan: HalMigrationPlanView,
    path: Seq<char>,
    content: Option<Seq<char>>,
) -> Option<Seq<char>> {
    match written(plan.write_files, path, 0) {
        Some(text) => Some(text),
        None => match content {
            Some(text) => Some(edited(plan.build_file_edits, path, text, 0)),
            None => None,
        },
    }
}

/// The project once a plan was carried out, before emptied directories are removed:
/// its files moved, written and edited, and behind them what was made anew.
pub open spec fn carried_out(
    t: ProjectTreeView,
    plan: HalMigrationPlanView,
    made: Seq<EntryView>,
) -> ProjectTreeView {
    let moved = after_moves(t, plan.moves).entries;
    ProjectTreeView {
        root: t.root,
        entries: Seq::new(
            moved.len(),
            |i: int|
                EntryView { content: new_content(plan, moved[i].path, moved[i].content), ..moved[i] },
        ) + made,
    }
}

/// The path is `hal` or leads below it.
pub open spec fn below_hal(path: Seq<char>) -> bool {
    path == "hal"@ || begins(path, "hal/"@)
}

/// The legacy contracts are headers and sources, and nothing else.
pub open spec fn only_contracts(t: ProjectTreeView) -> bool {
    forall|i: int|
        0 <= i < listing(t, "toolkit/src/hal/api"@).len() ==> has_extension(
            #[trigger] listing(t, "toolkit/src/hal/api"@)[i],
            "hpp"@,
        ) || is_any_source(listing(t, "toolkit/src/hal/api"@)[i])
}

/// Rewriting a platform's build file leaves no legacy wiring in it.
pub open spec fn rewriting_unwires(t: ProjectTreeView) -> bool {
    forall|i: int|
        0 <= i < root_dirs(t).len() ==> (content_at(
            t,
            path_join(#[trigger] root_dirs(t)[i], "meson.build"@),
        ) matches Some(c) ==> legacy_wiring(c) ==> !legacy_wiring(rewritten_meson(root_dirs(t)[i], c)))
}

// ---------------------------------------------------------------------------
// What is made anew
// ---------------------------------------------------------------------------

proof fn outside_hal(plat: Seq<char>, name: Seq<char>)
    requires
        is_part(plat),
        plat != "hal"@,
    ensures
        !below_hal(plat),
        !below_hal(path_join(plat, name)),
{
    reveal_strlit("hal");
    reveal_strlit("hal/");
    reveal_strlit("/");
    let q = path_join(plat, name);
    joined_has_slash(plat, name);
    if begins(q, "hal/"@) {
        assert(q.subrange(0, 4)[3] == q[3]);
        assert(q.subrange(0, 4)[0] == q[0]);
        assert(q.subrange(0, 4)[1] == q[1]);
        assert(q.subrange(0, 4)[2] == q[2]);
        if plat.len() > 3 {
            assert(plat[3] == '/');
        } else if plat.len() < 3 {
            assert(q[plat.len() as int] == '/');
        }
        assert(plat =~= "hal"@);
    }
    if begins(plat, "hal/"@) {
        assert(plat.subrange(0, 4)[3] == plat[3]);
    }
    if q == "hal"@ {
        assert("hal"@[0] == 'h' && "hal"@[1] == 'a' && "hal"@[2] == 'l');
        assert(q[plat.len() as int] == '/');
    }
}

proof fn parent_below_hal(path: Seq<char>)
    requires
        below_hal(path),
    ensures
        parent_of(path).len() == 0 ==> path == "hal"@ && name_of(path) == "hal"@,
        parent_of(path).len() > 0 ==> below_hal(parent_of(path)),
{
    reveal_strlit("hal");
    reveal_strlit("hal/");
    reveal_strlit("/");
    path_parts(path);
    if path == "hal"@ {
        assert(!path.contains('/')) by {
            if path.contains('/') {
                let k = choose|k: int| 0 <= k < path.len() && path[k] == '/';
            }
        }
    } else {
        let p = parent_of(path);
        assert(path.subrange(0, 4)[0] == path[0]);
        assert(path.subrange(0, 4)[1] == path[1]);
        assert(path.subrange(0, 4)[2] == path[2]);
        assert(path.subrange(0, 4)[3] == path[3]);
        if p.len() == 0 {
            last_slash(path, path.len() - 1);
            assert(path[3] == '/');
            assert(find_last(path, "/"@) is Some);
        } else {
            assert(path == path_join(p, name_of(path)));
            assert(path[p.len() as int] == '/');
            if p.len() < 3 {
                assert(path[p.len() as int] == '/');
            } else if p.len() == 3 {
                assert(p =~= "hal"@);
            } else {
                assert(p.subrange(0, 4) =~= path.subrange(0, 4));
            }
        }
    }
}

proof fn found_before_made(a: Seq<EntryView>, made: Seq<EntryView>, q: Seq<char>, k: int)
    requires
        0 <= k <= a.len(),
        forall|i: int| 0 <= i < made.len() ==> (#[trigger] made[i]).path != q,
    ensures
        entry_from(a + made, q, k) == entry_from(a, q, k),
    decreases a.len() - k,
{
    if k < a.len() {
        found_before_made(a, made, q, k + 1);
    } else {
        nothing_made_there(a, made, q, k);
    }
}

proof fn nothing_made_there(a: Seq<EntryView>, made: Seq<EntryView>, q: Seq<char>, k: int)
    requires
        a.len() <= k,
        forall|i: int| 0 <= i < made.len() ==> (#[trigger] made[i]).path != q,
    ensures
        entry_from(a + made, q, k) is None,
    decreases (a + made).len() - k,
{
    if k < (a + made).len() {
        assert((a + made)[k] == made[k - a.len()]);
        nothing_made_there(a, made, q, k + 1);
    }
}

proof fn still_found(a: Seq<EntryView>, made: Seq<EntryView>, q: Seq<char>, k: int)
    requires
        0 <= k,
        entry_from(a, q, k) is Some,
    ensures
        entry_from(a + made, q, k) == entry_from(a, q, k),
    decreases a.len() - k,
{
    if k < a.len() && a[k].path != q {
        still_found(a, made, q, k + 1);
    }
}

/// A name that is listed once a plan was carried out is listed after its moves, unless
/// it was made anew.
proof fn listed_after_moves(t: ProjectTreeView, plan: HalMigrationPlanView, made: Seq<EntryView>, dir: Seq<char>, x: Seq<char>)
    requires
        names_in(carried_out(t, plan, made), dir).contains(x),
        forall|i: int| 0 <= i < made.len() ==> below_hal((#[trigger] made[i]).path),
    ensures
        names_in(after_moves(t, plan.moves), dir).contains(x) || (dir.len() == 0 && x == "hal"@)
            || below_hal(dir),
{
    let after = carried_out(t, plan, made);
    let moved = after_moves(t, plan.moves);
    listed_name(after, dir, x);
    let i = choose|i: int|
        0 <= i < after.entries.len() && parent_of((#[trigger] after.entries[i]).path) == dir && name_of(
            after.entries[i].path,
        ) == x;
    if i < moved.entries.len() {
        assert(after.entries[i].path == moved.entries[i].path);
        name_is_listed(moved.entries, dir, moved.entries.len() as int, i);
    } else {
        assert(after.entries[i] == made[i - moved.entries.len()]);
        parent_below_hal(after.entries[i].path);
    }
}

/// Outside of `hal`, what is a directory after the moves is one at the end, and what
/// stands there holds what the plan leaves in it.
proof fn place_after_moves(t: ProjectTreeView, plan: HalMigrationPlanView, made: Seq<EntryView>, q: Seq<char>)
    requires
        !below_hal(q),
        forall|i: int| 0 <= i < made.len() ==> below_hal((#[trigger] made[i]).path),
    ensures
        dir_at(carried_out(t, plan, made), q) == dir_at(after_moves(t, plan.moves), q),
        content_at(carried_out(t, plan, made), q) == (match entry_from(
            after_moves(t, plan.moves).entries,
            q,
            0,
        ) {
            Some(k) => new_content(plan, q, after_moves(t, plan.moves).entries[k].content),
            None => None,
        }),
{
    let moved = after_moves(t, plan.moves).entries;
    let after = carried_out(t, plan, made);
    let a = after.entries.take(moved.len() as int);
    assert(after.entries =~= a + made);
    assert forall|i: int| 0 <= i < made.len() implies (#[trigger] made[i]).path != q by {
        assert(below_hal(made[i].path));
    }
    found_before_made(a, made, q, 0);
    same_place(a, moved, q, 0);
    entry_in_range(moved, q, 0);
    entry_is_there(moved, q, 0);
}

proof fn entry_is_there(s: Seq<EntryView>, q: Seq<char>, k: int)
    ensures
        entry_from(s, q, k) matches Some(i) ==> 0 <= i < s.len() && s[i].path == q,
    decreases s.len() - k,
{
    if 0 <= k < s.len() {
        entry_is_there(s, q, k + 1);
    }
}

// ---------------------------------------------------------------------------
// What no move touches
// ---------------------------------------------------------------------------

/// A place right below a directory of the root is no end of a move.
proof fn far_from_moves(pair: (Seq<char>, Seq<char>), dir: Seq<char>, name: Seq<char>)
    requires
        moves_out(pair),
        is_part(dir),
        !name.contains('/'),
    ensures
        pair.0 != path_join(dir, name),
        pair.1 != path_join(dir, name),
        parent_of(pair.0) != "hal/api"@,
{
    places();
    let (from, to, own) = choose|from: Seq<char>, to: Seq<char>, own: Seq<char>|
        #![trigger path_join(from, own), path_join(to, own)]
        pair == (path_join(from, own), path_join(to, own)) && !own.contains('/') && (({
            &&& from == "toolkit/src/hal/api"@
            &&& to == "hal/api"@ || to == "toolkit/src"@
        }) || is_platform_move(from, to));
    joined_parts(dir, name);
    joined_parts("toolkit/src/hal"@, "api"@);
    joined_parts("hal"@, "api"@);
    joined_has_slash("toolkit/src/hal"@, "api"@);
    joined_has_slash("hal"@, "api"@);
    joined_has_slash("toolkit"@, "src"@);
    if is_platform_move(from, to) {
        let plat = choose|plat: Seq<char>|
            #![trigger path_join(plat, "hal"@)]
            is_part(plat) && from == path_join(plat, "hal"@) && to == path_join("hal/implementations"@, plat);
        joined_has_slash(plat, "hal"@);
        joined_has_slash("hal/implementations"@, plat);
        joined_parts(plat, "hal"@);
    }
    joined_parts(from, own);
    joined_parts(to, own);
}

/// What stands right below a directory of the root is the same after the moves.
proof fn place_is_untouched(t: ProjectTreeView, dir: Seq<char>, name: Seq<char>)
    requires
        named_entries(t),
        has_legacy(t),
        plan_of(t).conflicts.len() == 0,
        is_part(dir),
        !name.contains('/'),
    ensures
        ({
            let q = path_join(dir, name);
            let moved = after_moves(t, plan_of(t).moves);
            &&& entry_from(moved.entries, q, 0) == entry_from(t.entries, q, 0)
            &&& dir_at(moved, q) == dir_at(t, q)
            &&& content_at(moved, q) == content_at(t, q)
        }),
{
    let q = path_join(dir, name);
    let moves = plan_of(t).moves;
    let pairs = misplaced(t);
    let a = after_moves(t, moves);
    all_move(t, pairs, pairs.len() as int);
    assert forall|i: int| 0 <= i < t.entries.len() implies ((#[trigger] a.entries[i]).path == q
        <==> t.entries[i].path == q) by {
        let path = t.entries[i].path;
        moved_or_stays(moves, path, 0);
        if exists|k: int|
            0 <= k < moves.len() && (#[trigger] moves[k]).from == path && moved_path(moves, path, 0)
                == moves[k].to {
            let k = choose|k: int|
                0 <= k < moves.len() && (#[trigger] moves[k]).from == path && moved_path(moves, path, 0)
                    == moves[k].to;
            misplaced_moves_out(t, k);
            far_from_moves(pairs[k], dir, name);
            assert(pairs[k].0 != q && pairs[k].1 != q);
        }
    }
    same_place(a.entries, t.entries, q, 0);
    entry_in_range(t.entries, q, 0);
}

/// A platform directory after the moves was one before.
proof fn root_dir_was_there(t: ProjectTreeView, plat: Seq<char>)
    requires
        named_entries(t),
        has_legacy(t),
        plan_of(t).conflicts.len() == 0,
        root_dirs(after_moves(t, plan_of(t).moves)).contains(plat),
    ensures
        is_part(plat),
        !is_skipped(plat),
        root_dirs(t).contains(plat),
{
    let none = Seq::<char>::empty();
    let pairs = misplaced(t);
    let moved = after_moves(t, plan_of(t).moves);
    assert forall|k: int| 0 <= k < pairs.len() implies parent_of((#[trigger] pairs[k]).1) != none by {
        misplaced_moves_out(t, k);
        places_apart(pairs[k], plat);
    }
    let seen = names_in(moved, none);
    dir_member(moved, seen, seen.len() as int, plat);
    assert(seen.take(seen.len() as int) =~= seen);
    stood_there(t, none, plat);
    listed_name(t, none, plat);
    assert forall|k: int| 0 <= k < pairs.len() implies (#[trigger] pairs[k]).0 != plat && pairs[k].1 != plat by {
        misplaced_moves_out(t, k);
        places_apart(pairs[k], plat);
    }
    dir_is_untouched(t, plat);
    let names = names_in(t, none);
    dir_member(t, names, names.len() as int, plat);
    assert(names.take(names.len() as int) =~= names);
}

/// A platform directory at the end is one after the moves.
proof fn root_dir_is_no_new_one(t: ProjectTreeView, made: Seq<EntryView>, plat: Seq<char>)
    requires
        named_entries(t),
        has_legacy(t),
        plan_of(t).conflicts.len() == 0,
        forall|i: int| 0 <= i < made.len() ==> below_hal((#[trigger] made[i]).path),
        root_dirs(carried_out(t, plan_of(t), made)).contains(plat),
    ensures
        root_dirs(after_moves(t, plan_of(t).moves)).contains(plat),
        is_part(plat),
        plat != "hal"@,
{
    let none = Seq::<char>::empty();
    let plan = plan_of(t);
    let after = carried_out(t, plan, made);
    let moved = after_moves(t, plan.moves);
    let seen = names_in(after, none);
    dir_member(after, seen, seen.len() as int, plat);
    assert(seen.take(seen.len() as int) =~= seen);
    reveal_strlit("hal");
    reveal_strlit("hal/");
    assert(!below_hal(none)) by {
        assert(none.len() < "hal/"@.len());
    }
    listed_after_moves(t, plan, made, none, plat);
    let pairs = misplaced(t);
    assert forall|k: int| 0 <= k < pairs.len() implies parent_of((#[trigger] pairs[k]).1) != none by {
        misplaced_moves_out(t, k);
        places_apart(pairs[k], plat);
    }
    stood_there(t, none, plat);
    listed_name(t, none, plat);
    outside_hal(plat, none);
    place_after_moves(t, plan, made, plat);
    let names = names_in(moved, none);
    dir_member(moved, names, names.len() as int, plat);
    assert(names.take(names.len() as int) =~= names);
}

// ---------------------------------------------------------------------------
// Build files
// ---------------------------------------------------------------------------

proof fn edits_of_platforms(t: ProjectTreeView, dirs: Seq<Seq<char>>, n: int, k: int)
    requires
        0 <= n <= dirs.len(),
        0 <= k < rewires_upto(t, dirs, n).len(),
    ensures
        exists|d: int|
            0 <= d < n && rewires(t, #[trigger] dirs[d]) && rewires_upto(t, dirs, n)[k] == (BuildFileEditView {
                file: dirs[d] + "/meson.build"@,
                before: content_at(t, path_join(dirs[d], "meson.build"@))->0,
                after: rewritten_meson(dirs[d], content_at(t, path_join(dirs[d], "meson.build"@))->0),
            }),
    decreases n,
{
    if n > 0 {
        let done = rewires_upto(t, dirs, n - 1);
        if k < done.len() {
            edits_of_platforms(t, dirs, n - 1, k);
            let d = choose|d: int|
                0 <= d < n - 1 && rewires(t, #[trigger] dirs[d]) && done[k] == (BuildFileEditView {
                    file: dirs[d] + "/meson.build"@,
                    before: content_at(t, path_join(dirs[d], "meson.build"@))->0,
                    after: rewritten_meson(dirs[d], content_at(t, path_join(dirs[d], "meson.build"@))->0),
                });
            assert(rewires(t, dirs[d]));
        } else {
            assert(rewires(t, dirs[n - 1]));
        }
    }
}

proof fn platform_edit_is_planned(t: ProjectTreeView, dirs: Seq<Seq<char>>, n: int, d: int)
    requires
        0 <= d < n <= dirs.len(),
        rewires(t, dirs[d]),
    ensures
        exists|k: int|
            0 <= k < rewires_upto(t, dirs, n).len() && (#[trigger] rewires_upto(t, dirs, n)[k]).file == dirs[d]
                + "/meson.build"@ && rewires_upto(t, dirs, n)[k].before == content_at(
                t,
                path_join(dirs[d], "meson.build"@),
            )->0,
    decreases n,
{
    let done = rewires_upto(t, dirs, n - 1);
    let all = rewires_upto(t, dirs, n);
    if d == n - 1 {
        assert(all[done.len() as int].file == dirs[d] + "/meson.build"@);
    } else {
        platform_edit_is_planned(t, dirs, n - 1, d);
        let k = choose|k: int|
            0 <= k < done.len() && (#[trigger] done[k]).file == dirs[d] + "/meson.build"@ && done[k].before
                == content_at(t, path_join(dirs[d], "meson.build"@))->0;
        assert(all[k] == done[k]);
    }
}

proof fn edited_or_kept(edits: Seq<BuildFileEditView>, path: Seq<char>, text: Seq<char>, k: int)
    requires
        0 <= k,
    ensures
        (exists|i: int|
            k <= i < edits.len() && (#[trigger] edits[i]).file == path && edits[i].before == text && edited(
                edits,
                path,
                text,
                k,
            ) == edits[i].after) || (edited(edits, path, text, k) == text && forall|i: int|
            k <= i < edits.len() ==> !((#[trigger] edits[i]).file == path && edits[i].before == text)),
    decreases edits.len() - k,
{
    if k < edits.len() && !(edits[k].file == path && edits[k].before == text) {
        edited_or_kept(edits, path, text, k + 1);
    }
}

proof fn platform_file(plat: Seq<char>, other: Seq<char>)
    ensures
        path_join(plat, "meson.build"@) == plat + "/meson.build"@ || plat.len() == 0,
        !"meson.build"@.contains('/'),
        plat + "/meson.build"@ == other + "/meson.build"@ ==> plat == other,
        plat + "/meson.build"@ != "meson.build"@,
        plat + "/meson.build"@ != "hal/meson.build"@ || plat == "hal"@,
{
    reveal_strlit("/");
    reveal_strlit("meson.build");
    reveal_strlit("/meson.build");
    reveal_strlit("hal/meson.build");
    reveal_strlit("hal");
    assert("/meson.build"@ =~= "/"@ + "meson.build"@);
    assert(plat + "/"@ + "meson.build"@ =~= plat + "/meson.build"@);
    let a = plat + "/meson.build"@;
    let b = other + "/meson.build"@;
    if a == b {
        assert(a.len() == b.len());
        assert(plat =~= a.subrange(0, plat.len() as int));
        assert(other =~= b.subrange(0, other.len() as int));
    }
    if a == "meson.build"@ {
        assert(a.len() == plat.len() + 12);
    }
    assert("hal/meson.build"@ =~= "hal"@ + "/meson.build"@);
    if a == "hal/meson.build"@ {
        assert(plat =~= a.subrange(0, plat.len() as int));
        assert("hal"@ =~= "hal/meson.build"@.subrange(0, 3));
    }
}

/// No platform's build file is wired in the legacy way once the plan was carried out.
proof fn platform_is_rewired(t: ProjectTreeView, made: Seq<EntryView>, plat: Seq<char>)
    requires
        named_entries(t),
        has_legacy(t),
        plan_of(t).conflicts.len() == 0,
        rewriting_unwires(t),
        forall|i: int| 0 <= i < made.len() ==> below_hal((#[trigger] made[i]).path),
        root_dirs(carried_out(t, plan_of(t), made)).contains(plat),
    ensures
        content_at(carried_out(t, plan_of(t), made), path_join(plat, "meson.build"@)) matches Some(c)
            ==> !legacy_wiring(c),
{
    let plan = plan_of(t);
    let q = path_join(plat, "meson.build"@);
    let dirs = root_dirs(t);
    let n = dirs.len() as int;
    let edits = plan.build_file_edits;
    let top = top_edit(t);
    root_dir_is_no_new_one(t, made, plat);
    root_dir_was_there(t, plat);
    platform_file(plat, plat);
    outside_hal(plat, "meson.build"@);
    place_after_moves(t, plan, made, q);
    place_is_untouched(t, plat, "meson.build"@);
    assert(written(plan.write_files, q, 0) is None) by {
        let writes = plan.write_files;
        assert(writes.len() <= 1);
        assert(writes.len() == 1 ==> writes[0].path == "hal/meson.build"@);
        reveal_with_fuel(written, 2);
    }
    if content_at(t, q) is Some {
        let c = content_at(t, q)->0;
        let d = choose|d: int| 0 <= d < dirs.len() && dirs[d] == plat;
        edited_or_kept(edits, q, c, 0);
        if exists|i: int|
            0 <= i < edits.len() && (#[trigger] edits[i]).file == q && edits[i].before == c && edited(
                edits,
                q,
                c,
                0,
            ) == edits[i].after {
            let i = choose|i: int|
                0 <= i < edits.len() && (#[trigger] edits[i]).file == q && edits[i].before == c && edited(
                    edits,
                    q,
                    c,
                    0,
                ) == edits[i].after;
            assert(i >= top.len());
            let k = i - top.len();
            assert(edits[i] == rewires_upto(t, dirs, n)[k]);
            edits_of_platforms(t, dirs, n, k);
            let e = choose|e: int|
                0 <= e < n && rewires(t, #[trigger] dirs[e]) && rewires_upto(t, dirs, n)[k] == (BuildFileEditView {
                    file: dirs[e] + "/meson.build"@,
                    before: content_at(t, path_join(dirs[e], "meson.build"@))->0,
                    after: rewritten_meson(dirs[e], content_at(t, path_join(dirs[e], "meson.build"@))->0),
                });
            platform_file(plat, dirs[e]);
            assert(dirs[e] == plat);
            assert(legacy_wiring(c));
            assert(!legacy_wiring(rewritten_meson(dirs[d], c)));
        } else if legacy_wiring(c) {
            assert(!legacy_wiring(rewritten_meson(dirs[d], c)));
            assert(rewires(t, dirs[d]));
            platform_edit_is_planned(t, dirs, n, d);
            let k = choose|k: int|
                0 <= k < rewires_upto(t, dirs, n).len() && (#[trigger] rewires_upto(t, dirs, n)[k]).file
                    == dirs[d] + "/meson.build"@ && rewires_upto(t, dirs, n)[k].before == content_at(
                    t,
                    path_join(dirs[d], "meson.build"@),
                )->0;
            assert(edits[top.len() + k] == rewires_upto(t, dirs, n)[k]);
        }
    }
}

// ---------------------------------------------------------------------------
// The end
// ---------------------------------------------------------------------------

proof fn stays_canonical(t: ProjectTreeView, made: Seq<EntryView>)
    requires
        named_entries(t),
        has_legacy(t),
        has_canonical(t),
        plan_of(t).conflicts.len() == 0,
    ensures
        has_canonical(carried_out(t, plan_of(t), made)),
{
    let plan = plan_of(t);
    let after = carried_out(t, plan, made);
    let moved = after_moves(t, plan.moves);
    let a = after.entries.take(moved.entries.len() as int);
    let pairs = misplaced(t);
    assert(after.entries =~= a + made);
    places();
    if exists_at(t, "hal/implementations"@) {
        place_is_untouched(t, "hal"@, "implementations"@);
        same_place(a, moved.entries, "hal/implementations"@, 0);
        still_found(a, made, "hal/implementations"@, 0);
    } else {
        let api = "hal/api"@;
        let x = hpp_names(t, api)[0];
        assert(hpp_names(t, api).contains(x));
        header_in_listing(t, api, x);
        listed_name(t, api, x);
        place_is_untouched(t, "hal"@, "api"@);
        same_place(a, moved.entries, api, 0);
        entry_in_range(moved.entries, api, 0);
        still_found(a, made, api, 0);
        let i = choose|i: int|
            0 <= i < t.entries.len() && parent_of((#[trigger] t.entries[i]).path) == api && name_of(
                t.entries[i].path,
            ) == x;
        let path = t.entries[i].path;
        all_move(t, pairs, pairs.len() as int);
        moved_or_stays(plan.moves, path, 0);
        if exists|k: int|
            0 <= k < plan.moves.len() && (#[trigger] plan.moves[k]).from == path && moved_path(
                plan.moves,
                path,
                0,
            ) == plan.moves[k].to {
            let k = choose|k: int|
                0 <= k < plan.moves.len() && (#[trigger] plan.moves[k]).from == path && moved_path(
                    plan.moves,
                    path,
                    0,
                ) == plan.moves[k].to;
            misplaced_moves_out(t, k);
            far_from_moves(pairs[k], "hal"@, "api"@);
        }
        assert(after.entries[i].path == path);
        name_is_listed(after.entries, api, after.entries.len() as int, i);
        header_in_listing(after, api, x);
    }
}

/// A migration ends in the canonical layout. Let a project be half migrated: its
/// legacy contracts are headers and sources only, nothing stands in the way of a move,
/// and rewriting a platform's build file leaves no legacy wiring in it. Once the plan
/// was carried out, with whatever was made anew below `hal`, the layout is canonical.
pub proof fn carried_out_plan_is_canonical(t: ProjectTreeView, made: Seq<EntryView>)
    requires
        named_entries(t),
        layout_of(t) == HalLayout::Mixed,
        plan_of(t).conflicts.len() == 0,
        only_contracts(t),
        rewriting_unwires(t),
        forall|i: int| 0 <= i < made.len() ==> below_hal((#[trigger] made[i]).path),
    ensures
        layout_of(carried_out(t, plan_of(t), made)) == HalLayout::Canonical,
{
    let plan = plan_of(t);
    let after = carried_out(t, plan, made);
    let moved = after_moves(t, plan.moves);
    let api = "toolkit/src/hal/api"@;
    stays_canonical(t, made);
    nothing_is_left_behind(t);
    if stale_refs(after) {
        let d = choose|d: int|
            0 <= d < root_dirs(after).len() && (content_at(
                after,
                path_join(#[trigger] root_dirs(after)[d], "meson.build"@),
            ) matches Some(c) && legacy_wiring(c));
        assert(root_dirs(after).contains(root_dirs(after)[d]));
        platform_is_rewired(t, made, root_dirs(after)[d]);
    }
    if legacy_impls(after) {
        let d = choose|d: int|
            0 <= d < root_dirs(after).len() && any_source(
                listing(after, path_join(#[trigger] root_dirs(after)[d], "hal"@)),
            );
        let plat = root_dirs(after)[d];
        let hal = path_join(plat, "hal"@);
        assert(root_dirs(after).contains(plat));
        root_dir_is_no_new_one(t, made, plat);
        platform_is_empty(t, plat);
        outside_hal(plat, "hal"@);
        place_after_moves(t, plan, made, hal);
        let files = listing(after, hal);
        let j = choose|j: int| 0 <= j < files.len() && is_source(#[trigger] files[j]);
        assert(files.contains(files[j]));
        listed_after_moves(t, plan, made, hal, files[j]);
        joined_has_slash(plat, "hal"@);
        let left = listing(moved, hal);
        let k = choose|k: int| 0 <= k < left.len() && left[k] == files[j];
        assert(is_source(left[k]));
    }
    if listing(after, api).len() > 0 {
        let x = listing(after, api)[0];
        assert(listing(after, api).contains(x));
        assert(!below_hal(api)) by {
            places();
            reveal_strlit("hal/");
            reveal_strlit("hal");
            if begins(api, "hal/"@) {
                assert(api.subrange(0, 4)[0] == api[0]);
            }
        }
        place_after_moves(t, plan, made, api);
        listed_after_moves(t, plan, made, api, x);
        places();
        assert(listing(moved, api).contains(x));
        let pairs = misplaced(t);
        assert forall|k: int| 0 <= k < pairs.len() implies parent_of((#[trigger] pairs[k]).1) != api && pairs[k].0
            != api && pairs[k].1 != api by {
            misplaced_moves_out(t, k);
            places_apart(pairs[k], "hal"@);
        }
        stood_there(t, api, x);
        dir_is_untouched(t, api);
        assert(listing(t, api).contains(x));
        header_in_listing(moved, api, x);
        source_in_listing(moved, api, true, x);
    }
}

} // verus!
