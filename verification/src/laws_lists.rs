//! What a migration writes and moves: laws over the lists and the places.

use vstd::prelude::*;

use crate::laws_contract::{one_piece, piece_behind};
use crate::laws_migration::path_parts;
use crate::laws_text::{is_blank, trimming_takes_the_blanks_off};
use crate::migration::{
    conflicts_upto, free_upto, hpp_names, hpp_upto, impl_pairs_upto, is_any_source, is_source, layout_of,
    listing, lists_upto, misplaced, moves_upto, moving, notes_upto, plan_of, quoted_entries, relocated,
    root_dirs, sources_in, sources_upto, var_section, FileMoveView,
};
use crate::project::{exists_at, extension_of, has_extension, path_join, stem_of, ProjectTreeView};
use crate::text::{find_last, is_at, joined, joined_upto, last_from, pieces, trimmed, whitespace};

verus! {

// ---------------------------------------------------------------------------
// Source lists
// ---------------------------------------------------------------------------

/// The arguments of a call, read as a build tool reads them: what stands between the
/// commas, without the blanks around it.
pub open spec fn arguments(text: Seq<char>) -> Seq<Seq<char>> {
    pieces(text, ',').map_values(|p: Seq<char>| trimmed(p))
}

/// A text in single quotes.
pub open spec fn in_quotes(s: Seq<char>) -> Seq<char> {
    seq!['\''] + s + seq!['\'']
}

/// The text can stand between quotes as an argument.
pub open spec fn can_be_quoted(s: Seq<char>) -> bool {
    !s.contains(',') && !s.contains('\'') && !s.contains(')')
}

proof fn trimming_leaves_the_quoted(s: Seq<char>, text: Seq<char>)
    requires
        text == in_quotes(s) || text == seq![' '] + in_quotes(s),
    ensures
        trimmed(text) == in_quotes(s),
{
    let q = in_quotes(s);
    trimming_takes_the_blanks_off(text);
    let (a, b) = choose|a: Seq<char>, b: Seq<char>|
        is_blank(a) && is_blank(b) && text == #[trigger] (a + trimmed(text) + b);
    let t = trimmed(text);
    let k: int = if text == q { 0 } else { 1 };
    assert(text.len() == q.len() + k);
    assert(q[0] == '\'' && q.last() == '\'');
    assert(text[k] == '\'' && text.last() == '\'');
    assert(!whitespace('\''));
    assert(b.len() == 0) by {
        if b.len() > 0 {
            assert(text.last() == b.last());
            assert(whitespace(b[b.len() - 1]));
        }
    }
    assert(a.len() <= k) by {
        if a.len() > k {
            assert(text[k] == a[k]);
            assert(whitespace(a[k]));
        }
    }
    if a.len() < k {
        assert(t.len() > 0);
        assert(text[0] == t[0]);
        assert(whitespace(' '));
    }
    assert(a.len() == k);
    assert(t =~= text.subrange(k, text.len() as int));
    assert(t =~= q);
}

spec fn quoted_pieces(items: Seq<Seq<char>>, n: int) -> Seq<Seq<char>> {
    Seq::new(
        n as nat,
        |i: int|
            if i == 0 {
                in_quotes(items[i])
            } else {
                seq![' '] + in_quotes(items[i])
            },
    )
}

proof fn quoted_items_stand_apart(items: Seq<Seq<char>>, n: int)
    requires
        1 <= n <= items.len(),
        forall|i: int| 0 <= i < items.len() ==> can_be_quoted(#[trigger] items[i]),
    ensures
        pieces(joined_upto(items.map_values(|e: Seq<char>| in_quotes(e)), ", "@, n), ',') == quoted_pieces(items, n),
    decreases n,
{
    reveal_strlit(", ");
    let all = items.map_values(|e: Seq<char>| in_quotes(e));
    let e = items[n - 1];
    assert(can_be_quoted(e));
    let q = in_quotes(e);
    let last = seq![' '] + q;
    assert forall|j: int| 0 <= j < q.len() implies q[j] != ',' by {
        if 0 < j < q.len() - 1 {
            assert(q[j] == e[j - 1]);
        }
    }
    assert forall|j: int| 0 <= j < last.len() implies last[j] != ',' by {
        if j > 0 {
            assert(last[j] == q[j - 1]);
        }
    }
    if n == 1 {
        one_piece(q, ',', 0, 0);
        assert(q.subrange(0, q.len() as int) =~= q);
        assert(quoted_pieces(items, 1) =~= seq![q]);
        assert(joined_upto(all, ", "@, 1) == q);
    } else {
        quoted_items_stand_apart(items, n - 1);
        let done = joined_upto(all, ", "@, n - 1);
        assert(joined_upto(all, ", "@, n) =~= done + seq![','] + last);
        piece_behind(done, ',', last);
        assert(quoted_pieces(items, n) =~= quoted_pieces(items, n - 1).push(last));
    }
}

/// The place of a platform's source, from the `hal` directory on.
pub open spec fn listed_place(platform: Seq<char>, name: Seq<char>) -> Seq<char> {
    "implementations/"@ + platform + "/"@ + name
}

proof fn place_can_be_quoted(platform: Seq<char>, name: Seq<char>)
    requires
        can_be_quoted(platform),
        can_be_quoted(name),
    ensures
        can_be_quoted(listed_place(platform, name)),
{
    reveal_strlit("implementations/");
    reveal_strlit("/");
    let s = listed_place(platform, name);
    let a = "implementations/"@;
    let b = a + platform;
    let c = b + "/"@;
    assert forall|j: int| 0 <= j < s.len() implies s[j] != ',' && s[j] != '\'' && s[j] != ')' by {
        if j < a.len() {
            assert(s[j] == a[j]);
        } else if j < b.len() {
            assert(s[j] == platform[j - a.len()]);
        } else if j < c.len() {
            assert(s[j] == '/');
        } else {
            assert(s[j] == name[j - c.len()]);
        }
    }
}

/// The source list that a migration writes is a call that reads back: its arguments
/// are the places of the sources in quotes, each of them and in order.
pub proof fn written_list_is_read_back(platform: Seq<char>, files: Seq<Seq<char>>)
    requires
        files.len() > 0,
        can_be_quoted(platform),
        forall|i: int|
            0 <= i < files.len() ==> can_be_quoted(#[trigger] files[i]) && !files[i].contains('/'),
    ensures
        exists|text: Seq<char>|
            var_section(platform, files) == #[trigger] ("hal_impl_"@ + platform + "_sources = files("@ + text + ")"@)
                && !text.contains(')') && arguments(text) == files.map_values(
                |name: Seq<char>| in_quotes(listed_place(platform, name)),
            ),
{
    reveal_strlit("'implementations/");
    reveal_strlit("implementations/");
    reveal_strlit("'");
    let items = files.map_values(|name: Seq<char>| listed_place(platform, name));
    let all = items.map_values(|e: Seq<char>| in_quotes(e));
    assert forall|i: int| 0 <= i < items.len() implies can_be_quoted(#[trigger] items[i]) by {
        assert(can_be_quoted(files[i]));
        place_can_be_quoted(platform, files[i]);
    }
    let entries = quoted_entries(platform, files);
    assert forall|i: int| 0 <= i < entries.len() implies entries[i] == all[i] by {
        assert(can_be_quoted(files[i]));
        path_parts(files[i]);
        assert("'implementations/"@ =~= seq!['\''] + "implementations/"@);
        assert("'"@ =~= seq!['\'']);
        assert(entries[i] =~= all[i]);
    }
    assert(entries =~= all);
    let text = joined(all, ", "@);
    let n = items.len() as int;
    quoted_items_stand_apart(items, n);
    let ps = pieces(text, ',');
    assert(ps == quoted_pieces(items, n));
    let want = files.map_values(|name: Seq<char>| in_quotes(listed_place(platform, name)));
    assert forall|i: int| 0 <= i < n implies arguments(text)[i] == want[i] by {
        trimming_leaves_the_quoted(items[i], ps[i]);
    }
    assert(arguments(text) =~= want);
    no_bracket(items, n);
    assert(var_section(platform, files) == "hal_impl_"@ + platform + "_sources = files("@ + text + ")"@);
}

proof fn no_bracket(items: Seq<Seq<char>>, n: int)
    requires
        0 <= n <= items.len(),
        forall|i: int| 0 <= i < items.len() ==> can_be_quoted(#[trigger] items[i]),
    ensures
        !joined_upto(items.map_values(|e: Seq<char>| in_quotes(e)), ", "@, n).contains(')'),
    decreases n,
{
    reveal_strlit(", ");
    let all = items.map_values(|e: Seq<char>| in_quotes(e));
    if n > 0 {
        no_bracket(items, n - 1);
        let e = items[n - 1];
        assert(can_be_quoted(e));
        let q = in_quotes(e);
        assert forall|j: int| 0 <= j < q.len() implies q[j] != ')' by {
            if 0 < j < q.len() - 1 {
                assert(q[j] == e[j - 1]);
            }
        }
        let done = joined_upto(all, ", "@, n - 1);
        let now = joined_upto(all, ", "@, n);
        assert forall|j: int| 0 <= j < now.len() implies now[j] != ')' by {
            if n == 1 {
                assert(now == q);
            } else if j < done.len() {
                assert(now[j] == done[j]);
            } else if j >= done.len() + 2 {
                assert(now[j] == q[j - done.len() - 2]);
            }
        }
    }
}

// ---------------------------------------------------------------------------
// Names
// ---------------------------------------------------------------------------

/// The name is something, a dot, and an extension without one.
pub open spec fn is_named(name: Seq<char>, extension: Seq<char>) -> bool {
    !extension.contains('.') && exists|stem: Seq<char>|
        stem.len() > 0 && name == #[trigger] (stem + seq!['.'] + extension)
}

proof fn dot_at(s: Seq<char>, k: int)
    ensures
        "."@.len() == 1,
        is_at(s, "."@, k) <==> 0 <= k < s.len() && s[k] == '.',
{
    reveal_strlit(".");
    if 0 <= k < s.len() {
        assert(s.subrange(k, k + 1) =~= seq![s[k]]);
        assert("."@ =~= seq!['.']);
        assert(seq![s[k]][0] == s[k]);
    }
}

proof fn last_dot(s: Seq<char>, i: int)
    requires
        i < s.len(),
    ensures
        (match last_from(s, "."@, i) {
            Some(k) => 0 <= k <= i && s[k] == '.' && forall|j: int| k < j <= i ==> s[j] != '.',
            None => forall|j: int| 0 <= j <= i ==> s[j] != '.',
        }),
    decreases i + 1,
{
    dot_at(s, i);
    if i >= 0 && s[i] != '.' {
        last_dot(s, i - 1);
    }
}

/// A name has an extension exactly where it is something, a dot and the extension,
/// and its stem is that something.
pub proof fn extension_is_behind_the_last_dot(name: Seq<char>, extension: Seq<char>)
    ensures
        has_extension(name, extension) <==> is_named(name, extension),
        has_extension(name, extension) ==> name == stem_of(name) + seq!['.'] + extension,
        extension_of(name) is None ==> stem_of(name) == name,
{
    dot_at(name, 0);
    last_dot(name, name.len() - 1);
    if has_extension(name, extension) {
        let k = find_last(name, "."@)->0;
        let stem = name.subrange(0, k);
        assert(name =~= stem + seq!['.'] + extension);
        assert(stem_of(name) =~= stem);
        assert forall|j: int| 0 <= j < extension.len() implies extension[j] != '.' by {
            assert(extension[j] == name[k + 1 + j]);
        }
    }
    if is_named(name, extension) {
        let stem = choose|stem: Seq<char>| stem.len() > 0 && name == #[trigger] (stem + seq!['.'] + extension);
        let n = stem.len() as int;
        assert(name[n] == '.');
        assert forall|j: int| n < j < name.len() implies name[j] != '.' by {
            assert(name[j] == extension[j - n - 1]);
        }
        assert(find_last(name, "."@) == Some(n));
        assert(name.subrange(n + 1, name.len() as int) =~= extension);
    }
}

/// The name is that of a C or C++ implementation.
pub open spec fn is_implementation_name(name: Seq<char>) -> bool {
    is_named(name, "cpp"@) || is_named(name, "c"@)
}

/// The name is that of any C or C++ source.
pub open spec fn is_source_name(name: Seq<char>) -> bool {
    is_implementation_name(name) || is_named(name, "cc"@) || is_named(name, "cxx"@)
}

proof fn source_names(name: Seq<char>)
    ensures
        is_source(name) <==> is_implementation_name(name),
        is_any_source(name) <==> is_source_name(name),
        has_extension(name, "hpp"@) <==> is_named(name, "hpp"@),
{
    extension_is_behind_the_last_dot(name, "cpp"@);
    extension_is_behind_the_last_dot(name, "c"@);
    extension_is_behind_the_last_dot(name, "cc"@);
    extension_is_behind_the_last_dot(name, "cxx"@);
    extension_is_behind_the_last_dot(name, "hpp"@);
}

proof fn sources_are_filtered(names: Seq<Seq<char>>, n: int)
    requires
        0 <= n <= names.len(),
    ensures
        sources_upto(names, false, n) == names.take(n).filter(|x: Seq<char>| is_implementation_name(x)),
        sources_upto(names, true, n) == names.take(n).filter(|x: Seq<char>| is_source_name(x)),
        hpp_upto(names, n) == names.take(n).filter(|x: Seq<char>| is_named(x, "hpp"@)),
    decreases n,
{
    reveal(Seq::filter);
    if n > 0 {
        sources_are_filtered(names, n - 1);
        source_names(names[n - 1]);
        assert(names.take(n).drop_last() =~= names.take(n - 1));
        assert(names.take(n).last() == names[n - 1]);
    } else {
        assert(names.take(0).filter(|x: Seq<char>| is_implementation_name(x)) =~= Seq::empty());
        assert(names.take(0).filter(|x: Seq<char>| is_source_name(x)) =~= Seq::empty());
        assert(names.take(0).filter(|x: Seq<char>| is_named(x, "hpp"@)) =~= Seq::empty());
    }
}

/// The contracts of a directory are its `.hpp` names, its implementations the `.cpp`
/// and `.c` ones, and its sources those and the `.cc` and `.cxx` ones, in order.
pub proof fn names_are_sorted_by_extension(t: ProjectTreeView, dir: Seq<char>)
    ensures
        hpp_names(t, dir) == listing(t, dir).filter(|x: Seq<char>| is_named(x, "hpp"@)),
        sources_in(t, dir, false) == listing(t, dir).filter(|x: Seq<char>| is_implementation_name(x)),
        sources_in(t, dir, true) == listing(t, dir).filter(|x: Seq<char>| is_source_name(x)),
{
    let names = listing(t, dir);
    sources_are_filtered(names, names.len() as int);
    assert(names.take(names.len() as int) =~= names);
}

// ---------------------------------------------------------------------------
// The plan
// ---------------------------------------------------------------------------

/// The project has something to migrate.
pub open spec fn is_migrated(t: ProjectTreeView) -> bool {
    layout_of(t) is Legacy || layout_of(t) is Mixed
}

/// What the plan does with a file that stands in one place and belongs in another:
/// it moves there, unless something is there, which is a conflict.
pub open spec fn goes(t: ProjectTreeView, from: Seq<char>, to: Seq<char>) -> bool {
    if exists_at(t, to) {
        plan_of(t).conflicts.contains(to + " already exists"@)
    } else {
        plan_of(t).moves.contains(FileMoveView { from, to })
    }
}

proof fn pair_is_planned(t: ProjectTreeView, pairs: Seq<(Seq<char>, Seq<char>)>, n: int, i: int)
    requires
        0 <= i < n <= pairs.len(),
    ensures
        exists_at(t, pairs[i].1) ==> conflicts_upto(t, pairs, n).contains(pairs[i].1 + " already exists"@),
        !exists_at(t, pairs[i].1) ==> moves_upto(t, pairs, n).contains(
            FileMoveView { from: pairs[i].0, to: pairs[i].1 },
        ),
    decreases n,
{
    let m = FileMoveView { from: pairs[n - 1].0, to: pairs[n - 1].1 };
    let c = pairs[n - 1].1 + " already exists"@;
    let moves = moves_upto(t, pairs, n - 1);
    let conflicts = conflicts_upto(t, pairs, n - 1);
    let wanted = FileMoveView { from: pairs[i].0, to: pairs[i].1 };
    let told = pairs[i].1 + " already exists"@;
    if i < n - 1 {
        pair_is_planned(t, pairs, n - 1, i);
        if exists_at(t, pairs[i].1) {
            let k = choose|k: int| 0 <= k < conflicts.len() && conflicts[k] == told;
            assert(conflicts.push(c)[k] == told);
        } else {
            let k = choose|k: int| 0 <= k < moves.len() && moves[k] == wanted;
            assert(moves.push(m)[k] == wanted);
        }
    } else {
        assert(conflicts.push(c)[conflicts.len() as int] == c);
        assert(moves.push(m)[moves.len() as int] == m);
    }
}

proof fn platform_pair(t: ProjectTreeView, dirs: Seq<Seq<char>>, n: int, d: int, k: int)
    requires
        0 <= d < n <= dirs.len(),
        0 <= k < sources_in(t, path_join(dirs[d], "hal"@), false).len(),
    ensures
        ({
            let name = sources_in(t, path_join(dirs[d], "hal"@), false)[k];
            impl_pairs_upto(t, dirs, n).contains(
                (
                    path_join(path_join(dirs[d], "hal"@), name),
                    path_join(path_join("hal/implementations"@, dirs[d]), name),
                ),
            )
        }),
    decreases n,
{
    let hal = path_join(dirs[n - 1], "hal"@);
    let more = relocated(hal, path_join("hal/implementations"@, dirs[n - 1]), sources_in(t, hal, false));
    let done = impl_pairs_upto(t, dirs, n - 1);
    let name = sources_in(t, path_join(dirs[d], "hal"@), false)[k];
    let pair = (
        path_join(path_join(dirs[d], "hal"@), name),
        path_join(path_join("hal/implementations"@, dirs[d]), name),
    );
    if d < n - 1 {
        platform_pair(t, dirs, n - 1, d, k);
        let j = choose|j: int| 0 <= j < done.len() && done[j] == pair;
        assert((done + more)[j] == pair);
    } else {
        assert(more[k] == pair);
        assert((done + more)[done.len() + k] == pair);
    }
}

/// Every contract left in the toolkit goes to `hal/api`.
pub proof fn legacy_contract_goes_to_the_api(t: ProjectTreeView, name: Seq<char>)
    requires
        is_migrated(t),
        listing(t, "toolkit/src/hal/api"@).contains(name),
        is_named(name, "hpp"@),
    ensures
        goes(t, "toolkit/src/hal/api/"@ + name, "hal/api/"@ + name),
{
    toolkit_places(name);
    names_are_sorted_by_extension(t, "toolkit/src/hal/api"@);
    let api = "toolkit/src/hal/api"@;
    let names = listing(t, api);
    let keep = |x: Seq<char>| is_named(x, "hpp"@);
    names.lemma_filter_contains(keep, names.index_of(name));
    let hpp = hpp_names(t, api);
    let k = choose|k: int| 0 <= k < hpp.len() && hpp[k] == name;
    let pairs = misplaced(t);
    assert(pairs[k] == (path_join(api, name), path_join("hal/api"@, name)));
    pair_is_planned(t, pairs, pairs.len() as int, k);
}

/// Every source left among the toolkit's contracts goes to `toolkit/src`.
pub proof fn legacy_source_goes_to_the_toolkit(t: ProjectTreeView, name: Seq<char>)
    requires
        is_migrated(t),
        listing(t, "toolkit/src/hal/api"@).contains(name),
        is_source_name(name),
    ensures
        goes(t, "toolkit/src/hal/api/"@ + name, "toolkit/src/"@ + name),
{
    toolkit_places(name);
    names_are_sorted_by_extension(t, "toolkit/src/hal/api"@);
    let api = "toolkit/src/hal/api"@;
    let names = listing(t, api);
    let keep = |x: Seq<char>| is_source_name(x);
    names.lemma_filter_contains(keep, names.index_of(name));
    let found = sources_in(t, api, true);
    let k = choose|k: int| 0 <= k < found.len() && found[k] == name;
    let pairs = misplaced(t);
    let at = hpp_names(t, api).len() + k;
    assert(pairs[at] == (path_join(api, name), path_join("toolkit/src"@, name)));
    pair_is_planned(t, pairs, pairs.len() as int, at);
}

/// Every implementation below a platform's own `hal` goes to
/// `hal/implementations/<platform>`.
pub proof fn platform_source_goes_home(t: ProjectTreeView, plat: Seq<char>, name: Seq<char>)
    requires
        is_migrated(t),
        root_dirs(t).contains(plat),
        plat.len() > 0,
        listing(t, plat + "/hal"@).contains(name),
        is_implementation_name(name),
    ensures
        goes(t, plat + "/hal/"@ + name, "hal/implementations/"@ + plat + "/"@ + name),
{
    platform_places(plat, name);
    let dirs = root_dirs(t);
    let d = choose|d: int| 0 <= d < dirs.len() && dirs[d] == plat;
    let hal = path_join(plat, "hal"@);
    names_are_sorted_by_extension(t, hal);
    let names = listing(t, hal);
    let keep = |x: Seq<char>| is_implementation_name(x);
    names.lemma_filter_contains(keep, names.index_of(name));
    let found = sources_in(t, hal, false);
    let k = choose|k: int| 0 <= k < found.len() && found[k] == name;
    platform_pair(t, dirs, dirs.len() as int, d, k);
    let tail = impl_pairs_upto(t, dirs, dirs.len() as int);
    let pair = (path_join(hal, name), path_join(path_join("hal/implementations"@, plat), name));
    let j = choose|j: int| 0 <= j < tail.len() && tail[j] == pair;
    let pairs = misplaced(t);
    let at = pairs.len() - tail.len() + j;
    assert(pairs[at] == pair);
    pair_is_planned(t, pairs, pairs.len() as int, at);
}

proof fn toolkit_places(name: Seq<char>)
    ensures
        path_join("toolkit/src/hal/api"@, name) == "toolkit/src/hal/api/"@ + name,
        path_join("hal/api"@, name) == "hal/api/"@ + name,
        path_join("toolkit/src"@, name) == "toolkit/src/"@ + name,
{
    reveal_strlit("toolkit/src/hal/api");
    reveal_strlit("toolkit/src/hal/api/");
    reveal_strlit("hal/api");
    reveal_strlit("hal/api/");
    reveal_strlit("toolkit/src");
    reveal_strlit("toolkit/src/");
    reveal_strlit("/");
    assert(path_join("toolkit/src/hal/api"@, name) =~= "toolkit/src/hal/api/"@ + name);
    assert(path_join("hal/api"@, name) =~= "hal/api/"@ + name);
    assert(path_join("toolkit/src"@, name) =~= "toolkit/src/"@ + name);
}

proof fn platform_places(plat: Seq<char>, name: Seq<char>)
    requires
        plat.len() > 0,
    ensures
        path_join(plat, "hal"@) == plat + "/hal"@,
        path_join(path_join(plat, "hal"@), name) == plat + "/hal/"@ + name,
        path_join(path_join("hal/implementations"@, plat), name) == "hal/implementations/"@ + plat + "/"@ + name,
{
    reveal_strlit("hal");
    reveal_strlit("/hal");
    reveal_strlit("/hal/");
    reveal_strlit("hal/implementations");
    reveal_strlit("hal/implementations/");
    reveal_strlit("/");
    assert(path_join(plat, "hal"@) =~= plat + "/hal"@);
    assert(path_join(path_join(plat, "hal"@), name) =~= plat + "/hal/"@ + name);
    assert(path_join(path_join("hal/implementations"@, plat), name) =~= "hal/implementations/"@ + plat + "/"@ + name);
}

proof fn free_are_filtered(t: ProjectTreeView, dir: Seq<char>, names: Seq<Seq<char>>, n: int)
    requires
        0 <= n <= names.len(),
    ensures
        free_upto(t, dir, names, n) == names.take(n).filter(|x: Seq<char>| !exists_at(t, path_join(dir, x))),
    decreases n,
{
    reveal(Seq::filter);
    if n > 0 {
        free_are_filtered(t, dir, names, n - 1);
        assert(names.take(n).drop_last() =~= names.take(n - 1));
        assert(names.take(n).last() == names[n - 1]);
    } else {
        assert(names.take(0).filter(|x: Seq<char>| !exists_at(t, path_join(dir, x))) =~= Seq::empty());
    }
}

/// The sources of a platform that move, in order: the implementations below its own
/// `hal` whose new place is free.
pub open spec fn moving_names(t: ProjectTreeView, plat: Seq<char>) -> Seq<Seq<char>> {
    listing(t, plat + "/hal"@).filter(|x: Seq<char>| is_implementation_name(x)).filter(
        |x: Seq<char>| !exists_at(t, "hal/implementations/"@ + plat + "/"@ + x),
    )
}

proof fn moving_is_what_moves(t: ProjectTreeView, plat: Seq<char>)
    requires
        plat.len() > 0,
    ensures
        moving(t, plat) == moving_names(t, plat),
{
    platform_places(plat, Seq::empty());
    let hal = plat + "/hal"@;
    names_are_sorted_by_extension(t, hal);
    let names = sources_in(t, hal, false);
    let dir = path_join("hal/implementations"@, plat);
    free_are_filtered(t, dir, names, names.len() as int);
    assert(names.take(names.len() as int) =~= names);
    let a = |x: Seq<char>| !exists_at(t, path_join(dir, x));
    let b = |x: Seq<char>| !exists_at(t, "hal/implementations/"@ + plat + "/"@ + x);
    assert forall|x: Seq<char>| #[trigger] a(x) == b(x) by {
        platform_places(plat, x);
    }
    assert(a =~= b);
}

proof fn section_is_written(t: ProjectTreeView, dirs: Seq<Seq<char>>, n: int, d: int)
    requires
        0 <= d < n <= dirs.len(),
        moving(t, dirs[d]).len() > 0,
    ensures
        exists|a: Seq<char>, b: Seq<char>|
            lists_upto(t, dirs, n) == #[trigger] (a + var_section(dirs[d], moving(t, dirs[d])) + "\n"@ + b) && (a.len()
                == 0 || a.last() == '\n'),
        notes_upto(t, dirs, n).len() > 0,
        lists_upto(t, dirs, n).len() > 0 ==> lists_upto(t, dirs, n).last() == '\n',
    decreases n,
{
    reveal_strlit("\n");
    lists_end(t, dirs, n);
    let section = var_section(dirs[d], moving(t, dirs[d]));
    let done = lists_upto(t, dirs, n - 1);
    if d < n - 1 {
        section_is_written(t, dirs, n - 1, d);
        let (a, b) = choose|a: Seq<char>, b: Seq<char>|
            done == #[trigger] (a + section + "\n"@ + b) && (a.len() == 0 || a.last() == '\n');
        if moving(t, dirs[n - 1]).len() > 0 {
            let more = var_section(dirs[n - 1], moving(t, dirs[n - 1])) + "\n"@;
            assert(lists_upto(t, dirs, n) =~= a + section + "\n"@ + (b + more));
        }
    } else {
        lists_end(t, dirs, n - 1);
        assert(lists_upto(t, dirs, n) =~= done + section + "\n"@ + Seq::<char>::empty());
    }
}

proof fn lists_end(t: ProjectTreeView, dirs: Seq<Seq<char>>, n: int)
    ensures
        lists_upto(t, dirs, n).len() > 0 ==> lists_upto(t, dirs, n).last() == '\n',
    decreases n,
{
    reveal_strlit("\n");
    if n > 0 {
        lists_end(t, dirs, n - 1);
    }
}

proof fn line_of_list(
    a: Seq<char>,
    head: Seq<char>,
    plat: Seq<char>,
    call: Seq<char>,
    text: Seq<char>,
    b: Seq<char>,
)
    ensures
        a + (head + plat + call + text + ")"@) + "\n"@ + b == a + head + plat + call + text + ")\n"@ + b,
{
    reveal_strlit(")");
    reveal_strlit("\n");
    reveal_strlit(")\n");
    assert(a + (head + plat + call + text + ")"@) + "\n"@ + b =~= a + head + plat + call + text + ")\n"@ + b);
}

/// Where sources of a platform move, the plan writes `hal/meson.build`, and a line of
/// it is that platform's source list, with the place of every source that moves.
pub proof fn moving_sources_are_listed(t: ProjectTreeView, plat: Seq<char>)
    requires
        is_migrated(t),
        root_dirs(t).contains(plat),
        plat.len() > 0,
        can_be_quoted(plat),
        moving_names(t, plat).len() > 0,
        forall|i: int|
            0 <= i < moving_names(t, plat).len() ==> can_be_quoted(#[trigger] moving_names(t, plat)[i])
                && !moving_names(t, plat)[i].contains('/'),
    ensures
        plan_of(t).write_files.len() == 1,
        plan_of(t).write_files[0].path == "hal/meson.build"@,
        exists|a: Seq<char>, text: Seq<char>, b: Seq<char>|
            plan_of(t).write_files[0].content == #[trigger] (a + "hal_impl_"@ + plat + "_sources = files("@ + text
                + ")\n"@ + b) && (a.len() == 0 || a.last() == '\n') && arguments(text) == moving_names(
                t,
                plat,
            ).map_values(|name: Seq<char>| in_quotes(listed_place(plat, name))),
{
    let dirs = root_dirs(t);
    let d = choose|d: int| 0 <= d < dirs.len() && dirs[d] == plat;
    moving_is_what_moves(t, plat);
    let files = moving(t, plat);
    section_is_written(t, dirs, dirs.len() as int, d);
    written_list_is_read_back(plat, files);
    let text = choose|text: Seq<char>|
        var_section(plat, files) == #[trigger] ("hal_impl_"@ + plat + "_sources = files("@ + text + ")"@)
            && !text.contains(')') && arguments(text) == files.map_values(
            |name: Seq<char>| in_quotes(listed_place(plat, name)),
        );
    let content = lists_upto(t, dirs, dirs.len() as int);
    let (a, b) = choose|a: Seq<char>, b: Seq<char>|
        content == #[trigger] (a + var_section(dirs[d], moving(t, dirs[d])) + "\n"@ + b) && (a.len() == 0 || a.last()
            == '\n');
    line_of_list(a, "hal_impl_"@, plat, "_sources = files("@, text, b);
    assert(plan_of(t).write_files[0].content == content);
}

/// A plan can be carried out exactly where it moves something and nothing is in the
/// way; a project that is canonical, or has no layout, has nothing to move.
pub proof fn plan_needs_a_free_way(t: ProjectTreeView)
    ensures
        plan_of(t).can_apply <==> plan_of(t).moves.len() > 0 && plan_of(t).conflicts.len() == 0,
        !is_migrated(t) ==> plan_of(t).moves.len() == 0 && plan_of(t).write_files.len() == 0
            && plan_of(t).build_file_edits.len() == 0,
        plan_of(t).layout == layout_of(t),
{
}

} // verus!
