//! What holds of a project once its migration was carried out.

use vstd::prelude::*;

use crate::coverage::is_skipped;
use crate::migration::{
    any_source, conflicts_upto, has_legacy, hpp_names, hpp_upto, impl_pairs_upto, is_any_source, is_source,
    legacy_impls, listing, misplaced, moves_upto, plan_of, platforms_upto, relocated, root_dirs, sources_in,
    sources_upto, FileMoveView,
};
use crate::project::{
    dir_at, entry_from, has_extension, name_of, names_in, names_upto, parent_of, path_join, EntryView,
    ProjectTreeView,
};
use crate::text::{find_last, is_at, last_from, push_contains};

verus! {

/// Where a file stands once the moves from `k` on were made.
pub open spec fn moved_path(moves: Seq<FileMoveView>, path: Seq<char>, k: int) -> Seq<char>
    decreases moves.len() - k,
{
    if k < 0 || k >= moves.len() {
        path
    } else if moves[k].from == path {
        moves[k].to
    } else {
        moved_path(moves, path, k + 1)
    }
}

/// The project once moves were made.
pub open spec fn after_moves(t: ProjectTreeView, moves: Seq<FileMoveView>) -> ProjectTreeView {
    ProjectTreeView {
        root: t.root,
        entries: Seq::new(
            t.entries.len(),
            |i: int| EntryView { path: moved_path(moves, t.entries[i].path, 0), ..t.entries[i] },
        ),
    }
}

/// Every entry of the project has a name.
pub open spec fn named_entries(t: ProjectTreeView) -> bool {
    forall|i: int| 0 <= i < t.entries.len() ==> name_of((#[trigger] t.entries[i]).path).len() > 0
}

// ---------------------------------------------------------------------------
// Paths
// ---------------------------------------------------------------------------

proof fn slash_at(s: Seq<char>, k: int)
    ensures
        "/"@.len() == 1,
        is_at(s, "/"@, k) <==> 0 <= k < s.len() && s[k] == '/',
{
    reveal_strlit("/");
    if 0 <= k < s.len() {
        assert(s.subrange(k, k + 1) =~= seq![s[k]]);
        assert("/"@ =~= seq!['/']);
        assert(seq![s[k]][0] == s[k]);
    }
}

pub(crate) proof fn last_slash(s: Seq<char>, i: int)
    requires
        i < s.len(),
    ensures
        (match last_from(s, "/"@, i) {
            Some(k) => 0 <= k <= i && s[k] == '/' && forall|j: int| k < j <= i ==> s[j] != '/',
            None => forall|j: int| 0 <= j <= i ==> s[j] != '/',
        }),
    decreases i + 1,
{
    slash_at(s, i);
    if i >= 0 && s[i] != '/' {
        last_slash(s, i - 1);
    }
}

/// A path is its directory and its name; the name has no slash.
pub(crate) proof fn path_parts(path: Seq<char>)
    ensures
        !name_of(path).contains('/'),
        parent_of(path).len() > 0 ==> path == path_join(parent_of(path), name_of(path)),
        !path.contains('/') ==> parent_of(path).len() == 0 && name_of(path) == path,
{
    slash_at(path, 0);
    last_slash(path, path.len() - 1);
    let n = name_of(path);
    match find_last(path, "/"@) {
        Some(k) => {
            assert forall|j: int| 0 <= j < n.len() implies n[j] != '/' by {
                assert(n[j] == path[k + 1 + j]);
            }
            assert(path =~= parent_of(path) + "/"@ + n) by {
                reveal_strlit("/");
                assert("/"@[0] == '/');
            }
            assert(path.contains('/')) by {
                assert(path[k] == '/');
            }
        },
        None => {},
    }
}

/// The directory and the name of a joined path.
pub(crate) proof fn joined_parts(dir: Seq<char>, name: Seq<char>)
    requires
        dir.len() > 0,
        !name.contains('/'),
    ensures
        parent_of(path_join(dir, name)) == dir,
        name_of(path_join(dir, name)) == name,
{
    reveal_strlit("/");
    let p = path_join(dir, name);
    slash_at(p, 0);
    last_slash(p, p.len() - 1);
    assert(p[dir.len() as int] == '/');
    assert forall|j: int| dir.len() < j < p.len() implies p[j] != '/' by {
        assert(p[j] == name[j - dir.len() - 1]);
    }
    assert(find_last(p, "/"@) == Some(dir.len() as int));
    assert(parent_of(p) =~= dir);
    assert(name_of(p) =~= name);
}

pub(crate) proof fn joined_has_slash(dir: Seq<char>, name: Seq<char>)
    requires
        dir.len() > 0,
    ensures
        path_join(dir, name).contains('/'),
{
    reveal_strlit("/");
    assert(path_join(dir, name)[dir.len() as int] == '/');
}

/// The places that a migration knows, and how they differ.
pub(crate) proof fn places()
    ensures
        "toolkit/src/hal/api"@ == path_join("toolkit/src/hal"@, "api"@),
        "hal/api"@ == path_join("hal"@, "api"@),
        "toolkit/src"@ == path_join("toolkit"@, "src"@),
        "hal/implementations"@ == path_join("hal"@, "implementations"@),
        "toolkit/src/hal/api"@.len() == 19,
        "toolkit/src/hal"@.len() == 15,
        "hal/api"@.len() == 7,
        "toolkit/src"@.len() == 11,
        "hal/implementations"@.len() == 19,
        "hal"@.len() == 3,
        "toolkit"@.len() == 7,
        "toolkit/src/hal/api"@[0] == 't',
        "hal/implementations"@[0] == 'h',
        !"api"@.contains('/'),
        !"src"@.contains('/'),
        !"hal"@.contains('/'),
        !"implementations"@.contains('/'),
        "api"@ != "hal"@,
        "src"@ != "hal"@,
        "implementations"@ != "hal"@,
{
    reveal_strlit("toolkit/src/hal/api");
    reveal_strlit("toolkit/src/hal");
    reveal_strlit("toolkit/src");
    reveal_strlit("toolkit");
    reveal_strlit("hal/api");
    reveal_strlit("hal/implementations");
    reveal_strlit("implementations");
    reveal_strlit("hal");
    reveal_strlit("api");
    reveal_strlit("src");
    reveal_strlit("/");
    assert("toolkit/src/hal/api"@ =~= path_join("toolkit/src/hal"@, "api"@));
    assert("hal/api"@ =~= path_join("hal"@, "api"@));
    assert("toolkit/src"@ =~= path_join("toolkit"@, "src"@));
    assert("hal/implementations"@ =~= path_join("hal"@, "implementations"@));
    assert("api"@[0] == 'a' && "hal"@[0] == 'h' && "src"@[0] == 's' && "implementations"@[0] == 'i');
}

// ---------------------------------------------------------------------------
// What a listing holds
// ---------------------------------------------------------------------------

pub(crate) proof fn name_is_listed(entries: Seq<EntryView>, dir: Seq<char>, n: int, i: int)
    requires
        0 <= i < n <= entries.len(),
        parent_of(entries[i].path) == dir,
    ensures
        names_upto(entries, dir, n).contains(name_of(entries[i].path)),
    decreases n,
{
    let done = names_upto(entries, dir, n - 1);
    let all = names_upto(entries, dir, n);
    if i == n - 1 {
        assert(all[done.len() as int] == name_of(entries[i].path));
    } else {
        name_is_listed(entries, dir, n - 1, i);
        let k = choose|k: int| 0 <= k < done.len() && done[k] == name_of(entries[i].path);
        assert(all[k] == done[k]);
    }
}

proof fn listed_is_entry(entries: Seq<EntryView>, dir: Seq<char>, n: int, k: int)
    requires
        0 <= n <= entries.len(),
        0 <= k < names_upto(entries, dir, n).len(),
    ensures
        exists|i: int|
            0 <= i < n && parent_of((#[trigger] entries[i]).path) == dir && name_of(entries[i].path)
                == names_upto(entries, dir, n)[k],
    decreases n,
{
    if n > 0 {
        let done = names_upto(entries, dir, n - 1);
        if k < done.len() {
            listed_is_entry(entries, dir, n - 1, k);
            let i = choose|i: int|
                0 <= i < n - 1 && parent_of((#[trigger] entries[i]).path) == dir && name_of(entries[i].path)
                    == done[k];
            assert(parent_of(entries[i].path) == dir);
        } else {
            assert(parent_of(entries[n - 1].path) == dir);
        }
    }
}

proof fn hpp_member(names: Seq<Seq<char>>, n: int, x: Seq<char>)
    requires
        0 <= n <= names.len(),
    ensures
        hpp_upto(names, n).contains(x) <==> names.take(n).contains(x) && has_extension(x, "hpp"@),
    decreases n,
{
    if n > 0 {
        hpp_member(names, n - 1, x);
        assert(names.take(n) =~= names.take(n - 1).push(names[n - 1]));
        push_contains(names.take(n - 1), names[n - 1], x);
        push_contains(hpp_upto(names, n - 1), names[n - 1], x);
    }
}

proof fn source_member(names: Seq<Seq<char>>, any: bool, n: int, x: Seq<char>)
    requires
        0 <= n <= names.len(),
    ensures
        sources_upto(names, any, n).contains(x) <==> names.take(n).contains(x) && (if any {
            is_any_source(x)
        } else {
            is_source(x)
        }),
    decreases n,
{
    if n > 0 {
        source_member(names, any, n - 1, x);
        assert(names.take(n) =~= names.take(n - 1).push(names[n - 1]));
        push_contains(names.take(n - 1), names[n - 1], x);
        push_contains(sources_upto(names, any, n - 1), names[n - 1], x);
    }
}

pub(crate) proof fn dir_member(t: ProjectTreeView, names: Seq<Seq<char>>, n: int, x: Seq<char>)
    requires
        0 <= n <= names.len(),
    ensures
        platforms_upto(t, names, n).contains(x) <==> names.take(n).contains(x) && dir_at(t, x)
            && !is_skipped(x),
    decreases n,
{
    if n > 0 {
        dir_member(t, names, n - 1, x);
        assert(names.take(n) =~= names.take(n - 1).push(names[n - 1]));
        push_contains(names.take(n - 1), names[n - 1], x);
        push_contains(platforms_upto(t, names, n - 1), names[n - 1], x);
    }
}

/// A name of a listing belongs to an entry, so it has no slash and is not empty.
pub(crate) proof fn listed_name(t: ProjectTreeView, dir: Seq<char>, x: Seq<char>)
    requires
        names_in(t, dir).contains(x),
    ensures
        exists|i: int|
            0 <= i < t.entries.len() && parent_of((#[trigger] t.entries[i]).path) == dir && name_of(
                t.entries[i].path,
            ) == x,
        !x.contains('/'),
        named_entries(t) ==> x.len() > 0,
{
    let names = names_in(t, dir);
    let k = choose|k: int| 0 <= k < names.len() && names[k] == x;
    listed_is_entry(t.entries, dir, t.entries.len() as int, k);
    let i = choose|i: int|
        0 <= i < t.entries.len() && parent_of((#[trigger] t.entries[i]).path) == dir && name_of(
            t.entries[i].path,
        ) == names[k];
    path_parts(t.entries[i].path);
    assert(parent_of(t.entries[i].path) == dir);
}

// ---------------------------------------------------------------------------
// What is misplaced
// ---------------------------------------------------------------------------

/// A platform's name: a part of a path.
pub(crate) open spec fn is_part(s: Seq<char>) -> bool {
    s.len() > 0 && !s.contains('/')
}

/// The pair moves a name out of a legacy place into a canonical one.
pub(crate) open spec fn moves_out(pair: (Seq<char>, Seq<char>)) -> bool {
    exists|from: Seq<char>, to: Seq<char>, name: Seq<char>|
        #![trigger path_join(from, name), path_join(to, name)]
        pair == (path_join(from, name), path_join(to, name)) && !name.contains('/') && (({
            &&& from == "toolkit/src/hal/api"@
            &&& to == "hal/api"@ || to == "toolkit/src"@
        }) || is_platform_move(from, to))
}

pub(crate) open spec fn is_platform_move(from: Seq<char>, to: Seq<char>) -> bool {
    exists|plat: Seq<char>|
        #![trigger path_join(plat, "hal"@)]
        is_part(plat) && from == path_join(plat, "hal"@) && to == path_join("hal/implementations"@, plat)
}

proof fn platform_pair_moves_out(t: ProjectTreeView, dirs: Seq<Seq<char>>, n: int, k: int)
    requires
        0 <= n <= dirs.len(),
        forall|i: int| 0 <= i < dirs.len() ==> is_part(#[trigger] dirs[i]),
        0 <= k < impl_pairs_upto(t, dirs, n).len(),
    ensures
        moves_out(impl_pairs_upto(t, dirs, n)[k]),
    decreases n,
{
    if n > 0 {
        let done = impl_pairs_upto(t, dirs, n - 1);
        let plat = dirs[n - 1];
        let hal = path_join(plat, "hal"@);
        let to = path_join("hal/implementations"@, plat);
        let names = sources_in(t, hal, false);
        if k < done.len() {
            platform_pair_moves_out(t, dirs, n - 1, k);
        } else {
            let i = k - done.len();
            let x = names[i];
            assert(is_part(plat));
            source_in_listing(t, hal, false, x);
            listed_name(t, hal, x);
            assert(is_platform_move(hal, to));
            assert(impl_pairs_upto(t, dirs, n)[k] == (path_join(hal, x), path_join(to, x)));
        }
    }
}

/// A source of a directory is a name of its listing.
pub(crate) proof fn source_in_listing(t: ProjectTreeView, dir: Seq<char>, any: bool, x: Seq<char>)
    ensures
        sources_in(t, dir, any).contains(x) <==> listing(t, dir).contains(x) && (if any {
            is_any_source(x)
        } else {
            is_source(x)
        }),
        listing(t, dir).contains(x) ==> names_in(t, dir).contains(x) && dir_at(t, dir),
{
    let names = listing(t, dir);
    source_member(names, any, names.len() as int, x);
    assert(names.take(names.len() as int) =~= names);
}

pub(crate) proof fn header_in_listing(t: ProjectTreeView, dir: Seq<char>, x: Seq<char>)
    ensures
        hpp_names(t, dir).contains(x) <==> listing(t, dir).contains(x) && has_extension(x, "hpp"@),
        listing(t, dir).contains(x) ==> names_in(t, dir).contains(x) && dir_at(t, dir),
{
    let names = listing(t, dir);
    hpp_member(names, names.len() as int, x);
    assert(names.take(names.len() as int) =~= names);
}

proof fn root_dirs_are_parts(t: ProjectTreeView, k: int)
    requires
        named_entries(t),
        0 <= k < root_dirs(t).len(),
    ensures
        is_part(root_dirs(t)[k]),
{
    let names = names_in(t, Seq::empty());
    let x = root_dirs(t)[k];
    assert(root_dirs(t).contains(x));
    dir_member(t, names, names.len() as int, x);
    assert(names.take(names.len() as int) =~= names);
    listed_name(t, Seq::empty(), x);
}

pub(crate) proof fn misplaced_moves_out(t: ProjectTreeView, k: int)
    requires
        named_entries(t),
        0 <= k < misplaced(t).len(),
    ensures
        moves_out(misplaced(t)[k]),
{
    let api = "toolkit/src/hal/api"@;
    let first = relocated(api, "hal/api"@, hpp_names(t, api));
    let second = relocated(api, "toolkit/src"@, sources_in(t, api, true));
    let dirs = root_dirs(t);
    let pair = misplaced(t)[k];
    if k < first.len() {
        let x = hpp_names(t, api)[k];
        header_in_listing(t, api, x);
        listed_name(t, api, x);
        assert(pair == (path_join(api, x), path_join("hal/api"@, x)));
    } else if k < first.len() + second.len() {
        let x = sources_in(t, api, true)[k - first.len()];
        source_in_listing(t, api, true, x);
        listed_name(t, api, x);
        assert(pair == (path_join(api, x), path_join("toolkit/src"@, x)));
    } else {
        assert forall|i: int| 0 <= i < dirs.len() implies is_part(#[trigger] dirs[i]) by {
            root_dirs_are_parts(t, i);
        }
        platform_pair_moves_out(t, dirs, dirs.len() as int, k - first.len() - second.len());
    }
}

/// A canonical place is no legacy one, and what moves passes by its directories.
pub(crate) proof fn places_apart(pair: (Seq<char>, Seq<char>), d: Seq<char>)
    requires
        moves_out(pair),
    ensures
        parent_of(pair.1) != "toolkit/src/hal/api"@,
        parent_of(pair.1).len() > 0,
        is_part(d) ==> parent_of(pair.1) != path_join(d, "hal"@),
        pair.0 != "toolkit/src/hal/api"@ && pair.1 != "toolkit/src/hal/api"@,
        is_part(d) ==> pair.0 != d && pair.1 != d,
        is_part(d) ==> pair.0 != path_join(d, "hal"@) && pair.1 != path_join(d, "hal"@),
{
    places();
    let (from, to, name) = choose|from: Seq<char>, to: Seq<char>, name: Seq<char>|
        #![trigger path_join(from, name), path_join(to, name)]
        pair == (path_join(from, name), path_join(to, name)) && !name.contains('/') && (({
            &&& from == "toolkit/src/hal/api"@
            &&& to == "hal/api"@ || to == "toolkit/src"@
        }) || is_platform_move(from, to));
    let api = "toolkit/src/hal/api"@;
    let by_platform = is_platform_move(from, to);
    let plat = choose|plat: Seq<char>|
        #![trigger path_join(plat, "hal"@)]
        is_part(plat) && from == path_join(plat, "hal"@) && to == path_join("hal/implementations"@, plat);
    joined_parts("toolkit/src/hal"@, "api"@);
    joined_parts("hal"@, "api"@);
    joined_parts("toolkit"@, "src"@);
    joined_parts("hal"@, "implementations"@);
    if by_platform {
        joined_parts(plat, "hal"@);
        joined_parts("hal/implementations"@, plat);
        joined_has_slash("hal"@, "implementations"@);
    }
    joined_parts(from, name);
    joined_parts(to, name);
    joined_has_slash(from, name);
    joined_has_slash(to, name);
    assert(from != parent_of(api) && to != parent_of(api)) by {
        if by_platform && from == parent_of(api) {
            assert("toolkit/src/hal"@ =~= path_join("toolkit/src"@, "hal"@)) by {
                reveal_strlit("toolkit/src/hal");
                reveal_strlit("toolkit/src");
                reveal_strlit("hal");
                reveal_strlit("/");
            }
            joined_parts("toolkit/src"@, "hal"@);
            joined_has_slash("toolkit"@, "src"@);
        }
        if by_platform && to == parent_of(api) {
            assert(to[0] == "hal/implementations"@[0]);
            assert("toolkit/src/hal"@[0] == 't') by {
                reveal_strlit("toolkit/src/hal");
            }
        }
    }
    assert(to != api) by {
        if by_platform {
            assert(to[0] == "hal/implementations"@[0]);
        }
    }
    if is_part(d) {
        joined_parts(d, "hal"@);
        joined_has_slash("toolkit/src/hal"@, "api"@);
        joined_has_slash("hal"@, "api"@);
        joined_has_slash("toolkit"@, "src"@);
        if by_platform {
            joined_has_slash(plat, "hal"@);
            joined_has_slash("hal/implementations"@, plat);
        }
    }
}

// ---------------------------------------------------------------------------
// After the moves
// ---------------------------------------------------------------------------

pub(crate) proof fn moved_or_stays(moves: Seq<FileMoveView>, path: Seq<char>, k: int)
    requires
        0 <= k,
    ensures
        (exists|i: int|
            k <= i < moves.len() && (#[trigger] moves[i]).from == path && moved_path(moves, path, k)
                == moves[i].to) || (moved_path(moves, path, k) == path && forall|i: int|
            k <= i < moves.len() ==> (#[trigger] moves[i]).from != path),
    decreases moves.len() - k,
{
    if k < moves.len() {
        if moves[k].from != path {
            moved_or_stays(moves, path, k + 1);
        }
    }
}

/// Without conflicts every pair is a move.
pub(crate) proof fn all_move(t: ProjectTreeView, pairs: Seq<(Seq<char>, Seq<char>)>, n: int)
    requires
        0 <= n <= pairs.len(),
        conflicts_upto(t, pairs, n).len() == 0,
    ensures
        moves_upto(t, pairs, n).len() == n,
        forall|i: int|
            0 <= i < n ==> (#[trigger] moves_upto(t, pairs, n)[i]) == (FileMoveView {
                from: pairs[i].0,
                to: pairs[i].1,
            }),
    decreases n,
{
    if n > 0 {
        all_move(t, pairs, n - 1);
    }
}

pub(crate) proof fn same_place(a: Seq<EntryView>, b: Seq<EntryView>, q: Seq<char>, k: int)
    requires
        a.len() == b.len(),
        forall|i: int| 0 <= i < a.len() ==> ((#[trigger] a[i]).path == q <==> b[i].path == q),
    ensures
        entry_from(a, q, k) == entry_from(b, q, k),
    decreases a.len() - k,
{
    if 0 <= k < a.len() {
        assert(a[k].path == q <==> b[k].path == q);
        same_place(a, b, q, k + 1);
    }
}

pub(crate) proof fn entry_in_range(s: Seq<EntryView>, q: Seq<char>, k: int)
    ensures
        entry_from(s, q, k) matches Some(i) ==> 0 <= i < s.len(),
    decreases s.len() - k,
{
    if 0 <= k < s.len() {
        entry_in_range(s, q, k + 1);
    }
}

/// A directory that no move touches is one before and after.
pub(crate) proof fn dir_is_untouched(t: ProjectTreeView, q: Seq<char>)
    requires
        has_legacy(t),
        plan_of(t).conflicts.len() == 0,
        forall|k: int| 0 <= k < misplaced(t).len() ==> (#[trigger] misplaced(t)[k]).0 != q && misplaced(t)[k].1 != q,
    ensures
        dir_at(after_moves(t, plan_of(t).moves), q) == dir_at(t, q),
{
    let moves = plan_of(t).moves;
    let pairs = misplaced(t);
    let a = after_moves(t, moves);
    all_move(t, pairs, pairs.len() as int);
    assert forall|i: int| 0 <= i < t.entries.len() implies ((#[trigger] a.entries[i]).path == q
        <==> t.entries[i].path == q) by {
        let path = t.entries[i].path;
        moved_or_stays(moves, path, 0);
        if exists|k: int|
            0 <= k < moves.len() && (#[trigger] moves[k]).from == path && moved_path(moves, path, 0)
                == moves[k].to {
            let k = choose|k: int|
                0 <= k < moves.len() && (#[trigger] moves[k]).from == path && moved_path(moves, path, 0)
                    == moves[k].to;
            assert(pairs[k].0 != q && pairs[k].1 != q);
        }
    }
    same_place(a.entries, t.entries, q, 0);
    entry_in_range(t.entries, q, 0);
}

/// A file that stands in a directory after the moves stood there before, unless it
/// was moved.
pub(crate) proof fn stood_there(t: ProjectTreeView, dir: Seq<char>, x: Seq<char>)
    requires
        named_entries(t),
        has_legacy(t),
        plan_of(t).conflicts.len() == 0,
        names_in(after_moves(t, plan_of(t).moves), dir).contains(x),
        forall|k: int| 0 <= k < misplaced(t).len() ==> parent_of((#[trigger] misplaced(t)[k]).1) != dir,
    ensures
        exists|i: int|
            0 <= i < t.entries.len() && parent_of((#[trigger] t.entries[i]).path) == dir && name_of(
                t.entries[i].path,
            ) == x && forall|k: int|
                0 <= k < misplaced(t).len() ==> (#[trigger] misplaced(t)[k]).0 != t.entries[i].path,
        names_in(t, dir).contains(x),
{
    let moves = plan_of(t).moves;
    let pairs = misplaced(t);
    let a = after_moves(t, moves);
    all_move(t, pairs, pairs.len() as int);
    listed_name(a, dir, x);
    let i = choose|i: int|
        0 <= i < a.entries.len() && parent_of((#[trigger] a.entries[i]).path) == dir && name_of(
            a.entries[i].path,
        ) == x;
    let path = t.entries[i].path;
    assert(a.entries[i].path == moved_path(moves, path, 0));
    moved_or_stays(moves, path, 0);
    if exists|k: int|
        0 <= k < moves.len() && (#[trigger] moves[k]).from == path && moved_path(moves, path, 0)
            == moves[k].to {
        let k = choose|k: int|
            0 <= k < moves.len() && (#[trigger] moves[k]).from == path && moved_path(moves, path, 0)
                == moves[k].to;
        assert(moves[k].to == pairs[k].1);
        assert(parent_of(pairs[k].1) != dir);
    }
    assert forall|k: int| 0 <= k < pairs.len() implies (#[trigger] pairs[k]).0 != path by {
        assert(moves[k].from == pairs[k].0);
    }
    assert(parent_of(t.entries[i].path) == dir);
    name_is_listed(t.entries, dir, t.entries.len() as int, i);
}

proof fn pair_of_platform(t: ProjectTreeView, dirs: Seq<Seq<char>>, n: int, d: int, x: Seq<char>)
    requires
        0 <= d < n <= dirs.len(),
        sources_in(t, path_join(dirs[d], "hal"@), false).contains(x),
    ensures
        exists|k: int|
            0 <= k < impl_pairs_upto(t, dirs, n).len() && (#[trigger] impl_pairs_upto(t, dirs, n)[k]).0
                == path_join(path_join(dirs[d], "hal"@), x),
    decreases n,
{
    let done = impl_pairs_upto(t, dirs, n - 1);
    let all = impl_pairs_upto(t, dirs, n);
    let hal = path_join(dirs[n - 1], "hal"@);
    let names = sources_in(t, hal, false);
    if d == n - 1 {
        let i = choose|i: int| 0 <= i < names.len() && names[i] == x;
        assert(all[done.len() + i].0 == path_join(hal, x));
    } else {
        pair_of_platform(t, dirs, n - 1, d, x);
        let k = choose|k: int|
            0 <= k < done.len() && (#[trigger] done[k]).0 == path_join(path_join(dirs[d], "hal"@), x);
        assert(all[k] == done[k]);
    }
}

/// What is left of a platform's own implementations: nothing.
pub(crate) proof fn platform_is_empty(t: ProjectTreeView, plat: Seq<char>)
    requires
        named_entries(t),
        has_legacy(t),
        plan_of(t).conflicts.len() == 0,
        root_dirs(after_moves(t, plan_of(t).moves)).contains(plat),
    ensures
        !any_source(listing(after_moves(t, plan_of(t).moves), path_join(plat, "hal"@))),
{
    let none = Seq::<char>::empty();
    let pairs = misplaced(t);
    let after = after_moves(t, plan_of(t).moves);
    let dirs = root_dirs(t);
    let hal = path_join(plat, "hal"@);
    assert forall|k: int| 0 <= k < pairs.len() implies parent_of((#[trigger] pairs[k]).1) != none by {
        misplaced_moves_out(t, k);
        places_apart(pairs[k], plat);
    }
    let seen = names_in(after, none);
    dir_member(after, seen, seen.len() as int, plat);
    assert(seen.take(seen.len() as int) =~= seen);
    stood_there(t, none, plat);
    listed_name(t, none, plat);
    assert(is_part(plat));
    assert forall|k: int| 0 <= k < pairs.len() implies (#[trigger] pairs[k]).0 != plat && pairs[k].1 != plat
        && pairs[k].0 != hal && pairs[k].1 != hal && parent_of(pairs[k].1) != hal by {
        misplaced_moves_out(t, k);
        places_apart(pairs[k], plat);
    }
    dir_is_untouched(t, plat);
    dir_is_untouched(t, hal);
    let names = names_in(t, none);
    dir_member(t, names, names.len() as int, plat);
    assert(names.take(names.len() as int) =~= names);
    let d = choose|d: int| 0 <= d < dirs.len() && dirs[d] == plat;
    let files = listing(after, hal);
    if any_source(files) {
        let j = choose|j: int| 0 <= j < files.len() && is_source(#[trigger] files[j]);
        let x = files[j];
        assert(files.contains(x));
        stood_there(t, hal, x);
        let i = choose|i: int|
            0 <= i < t.entries.len() && parent_of((#[trigger] t.entries[i]).path) == hal && name_of(
                t.entries[i].path,
            ) == x && forall|k: int| 0 <= k < pairs.len() ==> (#[trigger] pairs[k]).0 != t.entries[i].path;
        path_parts(t.entries[i].path);
        source_in_listing(t, hal, false, x);
        assert(listing(t, hal).contains(x));
        pair_of_platform(t, dirs, dirs.len() as int, d, x);
        let api = "toolkit/src/hal/api"@;
        let first = relocated(api, "hal/api"@, hpp_names(t, api));
        let second = relocated(api, "toolkit/src"@, sources_in(t, api, true));
        let third = impl_pairs_upto(t, dirs, dirs.len() as int);
        let k = choose|k: int| 0 <= k < third.len() && (#[trigger] third[k]).0 == path_join(hal, x);
        assert(pairs[first.len() + second.len() + k] == third[k]);
        assert(t.entries[i].path == path_join(hal, x));
    }
}

/// Once a plan without conflicts was carried out, no contract header and no source is
/// left among the legacy contracts, and no platform has implementation sources of its
/// own.
pub proof fn nothing_is_left_behind(t: ProjectTreeView)
    requires
        named_entries(t),
        has_legacy(t),
        plan_of(t).conflicts.len() == 0,
    ensures
        ({
            let after = after_moves(t, plan_of(t).moves);
            &&& hpp_names(after, "toolkit/src/hal/api"@).len() == 0
            &&& sources_in(after, "toolkit/src/hal/api"@, true).len() == 0
            &&& !legacy_impls(after)
        }),
{
    let api = "toolkit/src/hal/api"@;
    let pairs = misplaced(t);
    let after = after_moves(t, plan_of(t).moves);
    let first = relocated(api, "hal/api"@, hpp_names(t, api));
    let second = relocated(api, "toolkit/src"@, sources_in(t, api, true));
    places();
    assert forall|k: int, d: Seq<char>| 0 <= k < pairs.len() implies {
        &&& parent_of((#[trigger] pairs[k]).1) != api
        &&& parent_of(pairs[k].1).len() > 0
        &&& pairs[k].0 != api
        &&& pairs[k].1 != api
        &&& #[trigger] is_part(d) ==> parent_of(pairs[k].1) != path_join(d, "hal"@) && pairs[k].0 != d
            && pairs[k].1 != d && pairs[k].0 != path_join(d, "hal"@) && pairs[k].1 != path_join(d, "hal"@)
    } by {
        misplaced_moves_out(t, k);
        places_apart(pairs[k], d);
    }
    assert(is_part("hal"@));
    dir_is_untouched(t, api);
    if hpp_names(after, api).len() > 0 {
        let x = hpp_names(after, api)[0];
        header_in_listing(after, api, x);
        stood_there(t, api, x);
        let i = choose|i: int|
            0 <= i < t.entries.len() && parent_of((#[trigger] t.entries[i]).path) == api && name_of(
                t.entries[i].path,
            ) == x && forall|k: int|
                0 <= k < pairs.len() ==> (#[trigger] pairs[k]).0 != t.entries[i].path;
        path_parts(t.entries[i].path);
        header_in_listing(t, api, x);
        let names = hpp_names(t, api);
        let k = choose|k: int| 0 <= k < names.len() && names[k] == x;
        assert(pairs[k] == first[k]);
        assert(pairs[k].0 == path_join(api, x));
    }
    if sources_in(after, api, true).len() > 0 {
        let x = sources_in(after, api, true)[0];
        source_in_listing(after, api, true, x);
        stood_there(t, api, x);
        let i = choose|i: int|
            0 <= i < t.entries.len() && parent_of((#[trigger] t.entries[i]).path) == api && name_of(
                t.entries[i].path,
            ) == x && forall|k: int|
                0 <= k < pairs.len() ==> (#[trigger] pairs[k]).0 != t.entries[i].path;
        path_parts(t.entries[i].path);
        source_in_listing(t, api, true, x);
        let names = sources_in(t, api, true);
        let k = choose|k: int| 0 <= k < names.len() && names[k] == x;
        assert(pairs[first.len() + k] == second[k]);
        assert(pairs[first.len() + k].0 == path_join(api, x));
    }
    if legacy_impls(after) {
        let d = choose|d: int|
            0 <= d < root_dirs(after).len() && any_source(
                listing(after, path_join(#[trigger] root_dirs(after)[d], "hal"@)),
            );
        assert(root_dirs(after).contains(root_dirs(after)[d]));
        platform_is_empty(t, root_dirs(after)[d]);
    }
}

} // verus!
