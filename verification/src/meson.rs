//! Meson projects: what their build files declare.

use vstd::prelude::*;

use crate::contract::paren_from;
use crate::meson_hal::{detect_hal_interfaces, hal_findings};
use crate::migration::without_comments;
use crate::project::{content_at, plain_path, to_plain_path, ProjectTree, ProjectTreeView};
use crate::regexes::{
    end_at, find_matches, first_group, first_match, group_text, is_match, is_matched, match_end, match_start, matches_of,
    replace_matches, start_at, text_at,
};
use crate::table::{find_key, put, value_at, with_value};
use crate::text::{
    add_item, add_items, append_texts, begins, char_index, chars_of, contains, copy_texts, distinct, ends,
    ends_with, has_text, index_at, list_has, pieces, same, sort, sorted, split,
    starts_with, text_of, trim, trimmed, without_repeats,
};
use crate::types::{
    BuildMetadata, BuildMetadataView, BuildTarget, BuildTargetView, Dependency, DependencyView,
    DomainEditability, HalInterface, HalInterfaceView, ProjectDomain, ProjectDomainView, ProjectStructure,
    SourceKind, SourceRole, SourceUnit, SourceUnitView,
};

verus! {

// ---------------------------------------------------------------------------
// Texts that patterns capture
// ---------------------------------------------------------------------------

/// What group one of the first `n` matches captured, without blanks around it
/// and without empty texts.
pub open spec fn captured_upto(text: Seq<char>, ms: Seq<Seq<Option<(usize, usize)>>>, n: int) -> Seq<Seq<char>>
    decreases n,
{
    if n <= 0 {
        Seq::empty()
    } else {
        let done = captured_upto(text, ms, n - 1);
        match group_text(text, ms[n - 1], 1) {
            Some(g) => if trimmed(g).len() > 0 {
                done.push(trimmed(g))
            } else {
                done
            },
            None => done,
        }
    }
}

/// What group one of the pattern captures in the text.
pub open spec fn captured(pattern: Seq<char>, text: Seq<char>) -> Seq<Seq<char>> {
    captured_upto(text, matches_of(pattern, text), matches_of(pattern, text).len() as int)
}

/// What group one of the pattern captures in the text.
pub fn capture_texts(pattern: &str, text: &str) -> (r: Vec<String>)
    ensures
        r.deep_view() == captured(pattern@, text@),
{
    let chars = chars_of(text);
    let ms = find_matches(pattern, text);
    let ghost all = ms.deep_view();
    let mut out: Vec<String> = Vec::new();
    assert(out.deep_view() =~= Seq::empty());
    let mut i: usize = 0;
    while i < ms.len()
        invariant
            i <= ms@.len(),
            chars@ == text@,
            all == ms.deep_view(),
            out.deep_view() == captured_upto(text@, all, i as int),
        decreases ms@.len() - i,
    {
        if let Some(g) = text_at(&chars, &ms[i], 1) {
            let t = trim(g.as_str());
            if t.unicode_len() > 0 {
                add_item(&mut out, t.to_owned());
            }
        }
        i = i + 1;
    }
    out
}

// ---------------------------------------------------------------------------
// Dependencies of a target
// ---------------------------------------------------------------------------

/// The dependencies that the first `n` assignments give a variable.
pub open spec fn variables_upto(section: Seq<char>, ms: Seq<Seq<Option<(usize, usize)>>>, n: int) -> Seq<
    (Seq<char>, Seq<char>),
>
    decreases n,
{
    if n <= 0 {
        Seq::empty()
    } else {
        let done = variables_upto(section, ms, n - 1);
        match (group_text(section, ms[n - 1], 1), group_text(section, ms[n - 1], 2)) {
            (Some(var), Some(name)) => with_value(done, trimmed(var), trimmed(name)),
            _ => done,
        }
    }
}

/// The variables of a section that hold one dependency, each with its name.
pub open spec fn variables_in(section: Seq<char>) -> Seq<(Seq<char>, Seq<char>)> {
    let ms = matches_of(
        "(?m)^\\s*([a-z_][a-z0-9_]*)\\s*=\\s*(?:(?:cpp|cc|meson)\\s*\\.\\s*)?(?:dependency|find_library)\\s*\\(\\s*['\"]([^'\"]+)['\"]"@,
        section,
    );
    variables_upto(section, ms, ms.len() as int)
}

fn find_variables(section: &str) -> (r: Vec<(String, String)>)
    ensures
        r.deep_view() == variables_in(section@),
{
    let chars = chars_of(section);
    let ms = find_matches(
        "(?m)^\\s*([a-z_][a-z0-9_]*)\\s*=\\s*(?:(?:cpp|cc|meson)\\s*\\.\\s*)?(?:dependency|find_library)\\s*\\(\\s*['\"]([^'\"]+)['\"]",
        section,
    );
    let ghost all = ms.deep_view();
    let mut out: Vec<(String, String)> = Vec::new();
    assert(out.deep_view() =~= Seq::empty());
    let mut i: usize = 0;
    while i < ms.len()
        invariant
            i <= ms@.len(),
            chars@ == section@,
            all == ms.deep_view(),
            out.deep_view() == variables_upto(section@, all, i as int),
        decreases ms@.len() - i,
    {
        if let Some(var) = text_at(&chars, &ms[i], 1) {
            if let Some(name) = text_at(&chars, &ms[i], 2) {
                put(&mut out, trim(var.as_str()).to_owned(), trim(name.as_str()).to_owned());
            }
        }
        i = i + 1;
    }
    out
}

/// The name is that of a dependency variable: by its ending, or since it is known to
/// hold a dependency.
pub open spec fn names_dependency(known: Seq<(Seq<char>, Seq<char>)>, name: Seq<char>) -> bool {
    ||| value_at(known, name) is Some
    ||| ends(name, "_dep"@)
    ||| ends(name, "_deps"@)
    ||| ends(name, "_dependency"@)
    ||| ends(name, "_dependencies"@)
}

/// The dependency variables among the first `n` names.
pub open spec fn dependency_names_upto(
    known: Seq<(Seq<char>, Seq<char>)>,
    names: Seq<Seq<char>>,
    n: int,
) -> Seq<Seq<char>>
    decreases n,
{
    if n <= 0 {
        Seq::empty()
    } else {
        let done = dependency_names_upto(known, names, n - 1);
        if names_dependency(known, names[n - 1]) {
            done.push(names[n - 1])
        } else {
            done
        }
    }
}

/// The dependency variables that a text names.
pub open spec fn dependency_names(known: Seq<(Seq<char>, Seq<char>)>, text: Seq<char>) -> Seq<Seq<char>> {
    let names = captured("(?m)([a-z_][a-z0-9_]*)"@, text);
    dependency_names_upto(known, names, names.len() as int)
}

fn is_dependency_name(known: &Vec<(String, String)>, n: &str) -> (r: bool)
    ensures
        r == names_dependency(known.deep_view(), n@),
{
    find_key(known, n).is_some() || ends_with(n, "_dep") || ends_with(n, "_deps") || ends_with(n, "_dependency") || ends_with(
        n,
        "_dependencies",
    )
}

fn list_dependency_names(known: &Vec<(String, String)>, text: &str) -> (r: Vec<String>)
    ensures
        r.deep_view() == dependency_names(known.deep_view(), text@),
{
    let names = capture_texts("(?m)([a-z_][a-z0-9_]*)", text);
    let mut out: Vec<String> = Vec::new();
    assert(out.deep_view() =~= Seq::empty());
    let mut i: usize = 0;
    while i < names.len()
        invariant
            i <= names@.len(),
            out.deep_view() == dependency_names_upto(known.deep_view(), names.deep_view(), i as int),
        decreases names@.len() - i,
    {
        if is_dependency_name(known, names[i].as_str()) {
            add_item(&mut out, names[i].clone());
        }
        i = i + 1;
    }
    out
}

/// A trimmed group of a match.
pub open spec fn word_at(text: Seq<char>, groups: Seq<Option<(usize, usize)>>, k: int) -> Option<Seq<char>> {
    match group_text(text, groups, k) {
        Some(g) => Some(trimmed(g)),
        None => None,
    }
}

/// What a group matched, without the space around it.
pub fn find_word(chars: &Vec<char>, groups: &Vec<Option<(usize, usize)>>, k: usize) -> (r: Option<String>)
    ensures
        r.deep_view() == word_at(chars@, groups.deep_view(), k as int),
{
    match text_at(chars, groups, k) {
        Some(g) => Some(trim(g.as_str()).to_owned()),
        None => None,
    }
}

/// What a list variable holds; nothing where there is no such variable.
pub open spec fn held(lists: Seq<(Seq<char>, Seq<Seq<char>>)>, var: Seq<char>) -> Seq<Seq<char>> {
    match value_at(lists, var) {
        Some(names) => names,
        None => Seq::empty(),
    }
}

fn find_held(lists: &Vec<(String, Vec<String>)>, var: &str) -> (r: Vec<String>)
    ensures
        r.deep_view() == held(lists.deep_view(), var@),
{
    match find_key(lists, var) {
        Some(k) => {
            assert(lists.deep_view()[k as int] == (lists[k as int].0@, lists[k as int].1.deep_view()));
            copy_texts(&lists[k].1)
        },
        None => {
            let none: Vec<String> = Vec::new();
            assert(none.deep_view() =~= Seq::empty());
            none
        },
    }
}

/// The dependency variables that are assigned: those that the brackets list, or,
/// where one variable stands in their place, what it holds or the variable itself.
pub open spec fn assigned_names(
    known: Seq<(Seq<char>, Seq<char>)>,
    lists: Seq<(Seq<char>, Seq<Seq<char>>)>,
    listed: Option<Seq<char>>,
    single: Option<Seq<char>>,
) -> Seq<Seq<char>> {
    match (listed, single) {
        (Some(g), _) => dependency_names(known, g),
        (None, Some(v)) => match value_at(lists, v) {
            Some(names) => names,
            None => dependency_names_upto(known, seq![v], 1),
        },
        (None, None) => Seq::empty(),
    }
}

fn list_assigned(
    known: &Vec<(String, String)>,
    lists: &Vec<(String, Vec<String>)>,
    listed: &Option<String>,
    single: &Option<String>,
) -> (r: Vec<String>)
    ensures
        r.deep_view() == assigned_names(
            known.deep_view(),
            lists.deep_view(),
            listed.deep_view(),
            single.deep_view(),
        ),
{
    let mut out: Vec<String> = Vec::new();
    assert(out.deep_view() =~= Seq::empty());
    match (listed, single) {
        (Some(g), _) => {
            out = list_dependency_names(known, g.as_str());
        },
        (None, Some(v)) => {
            if find_key(lists, v.as_str()).is_some() {
                out = find_held(lists, v.as_str());
            } else {
                reveal_with_fuel(dependency_names_upto, 2);
                if is_dependency_name(known, v.as_str()) {
                    add_item(&mut out, v.clone());
                }
            }
        },
        (None, None) => {},
    }
    out
}

/// The list variables once a statement was taken: a loop variable stands for what
/// its list holds, `=` replaces what a variable held, and `+=` adds to it.
pub open spec fn with_statement(
    known: Seq<(Seq<char>, Seq<char>)>,
    lists: Seq<(Seq<char>, Seq<Seq<char>>)>,
    section: Seq<char>,
    groups: Seq<Option<(usize, usize)>>,
) -> Seq<(Seq<char>, Seq<Seq<char>>)> {
    let names = assigned_names(
        known,
        lists,
        group_text(section, groups, 4),
        word_at(section, groups, 5),
    );
    match (word_at(section, groups, 1), word_at(section, groups, 2)) {
        (Some(var), _) => with_value(lists, var, names),
        (None, Some(var)) => if word_at(section, groups, 3) == Some("+="@) {
            with_value(lists, var, held(lists, var) + names)
        } else {
            with_value(lists, var, names)
        },
        (None, None) => lists,
    }
}

/// The list variables that the first `n` statements declare, each with the
/// dependency variables that it holds.
pub open spec fn lists_upto(
    known: Seq<(Seq<char>, Seq<char>)>,
    section: Seq<char>,
    ms: Seq<Seq<Option<(usize, usize)>>>,
    n: int,
) -> Seq<(Seq<char>, Seq<Seq<char>>)>
    decreases n,
{
    if n <= 0 {
        Seq::empty()
    } else {
        with_statement(known, lists_upto(known, section, ms, n - 1), section, ms[n - 1])
    }
}

/// The list variables of a section: those of its assignments of a list or of
/// another variable, and of its loops over a list.
pub open spec fn lists_in(section: Seq<char>) -> Seq<(Seq<char>, Seq<Seq<char>>)> {
    let ms = matches_of(
        "(?m)^\\s*(?:foreach\\s+([a-z_][a-z0-9_]*)\\s*:|([a-z_][a-z0-9_]*)\\s*(=|\\+=))\\s*(?:\\[([^\\]]*)\\]|([a-z_][a-z0-9_]*)[ \\t]*$)"@,
        section,
    );
    lists_upto(variables_in(section), section, ms, ms.len() as int)
}

/// Takes an assignment into the list variables, from the groups of its match.
pub fn take_statement(
    known: &Vec<(String, String)>,
    lists: &mut Vec<(String, Vec<String>)>,
    chars: &Vec<char>,
    groups: &Vec<Option<(usize, usize)>>,
)
    ensures
        final(lists).deep_view() == with_statement(
            known.deep_view(),
            old(lists).deep_view(),
            chars@,
            groups.deep_view(),
        ),
{
    let names = list_assigned(known, lists, &text_at(chars, groups, 4), &find_word(chars, groups, 5));
    if let Some(var) = find_word(chars, groups, 1) {
        put(lists, var, names);
    } else if let Some(var) = find_word(chars, groups, 2) {
        let adds = match find_word(chars, groups, 3) {
            Some(op) => same(op.as_str(), "+="),
            None => false,
        };
        if adds {
            let mut all = find_held(lists, var.as_str());
            append_texts(&mut all, &names);
            put(lists, var, all);
        } else {
            put(lists, var, names);
        }
    }
}

fn find_lists(section: &str) -> (r: Vec<(String, Vec<String>)>)
    ensures
        r.deep_view() == lists_in(section@),
{
    let known = find_variables(section);
    let chars = chars_of(section);
    let ms = find_matches(
        "(?m)^\\s*(?:foreach\\s+([a-z_][a-z0-9_]*)\\s*:|([a-z_][a-z0-9_]*)\\s*(=|\\+=))\\s*(?:\\[([^\\]]*)\\]|([a-z_][a-z0-9_]*)[ \\t]*$)",
        section,
    );
    let ghost all = ms.deep_view();
    let mut out: Vec<(String, Vec<String>)> = Vec::new();
    assert(out.deep_view() =~= Seq::empty());
    let mut i: usize = 0;
    while i < ms.len()
        invariant
            i <= ms@.len(),
            chars@ == section@,
            all == ms.deep_view(),
            known.deep_view() == variables_in(section@),
            out.deep_view() == lists_upto(known.deep_view(), section@, all, i as int),
        decreases ms@.len() - i,
    {
        assert(all[i as int] == ms[i as int].deep_view());
        take_statement(&known, &mut out, &chars, &ms[i]);
        i = i + 1;
    }
    out
}

/// The names and what the lists of the first `n` of them hold.
pub open spec fn listed_upto(
    lists: Seq<(Seq<char>, Seq<Seq<char>>)>,
    names: Seq<Seq<char>>,
    n: int,
) -> Seq<Seq<char>>
    decreases n,
{
    if n <= 0 {
        names
    } else {
        let done = listed_upto(lists, names, n - 1);
        match value_at(lists, names[n - 1]) {
            Some(inner) => done + inner,
            None => done,
        }
    }
}

/// The names and what their lists hold, each once.
pub open spec fn followed_once(lists: Seq<(Seq<char>, Seq<Seq<char>>)>, names: Seq<Seq<char>>) -> Seq<
    Seq<char>,
> {
    distinct(listed_upto(lists, names, names.len() as int))
}

/// The names that are reached in `k` rounds.
pub open spec fn followed(
    lists: Seq<(Seq<char>, Seq<Seq<char>>)>,
    names: Seq<Seq<char>>,
    k: int,
) -> Seq<Seq<char>>
    decreases k,
{
    if k <= 0 {
        names
    } else {
        followed_once(lists, followed(lists, names, k - 1))
    }
}

/// The names that are reached by following lists: after one round for each list
/// and one more, nothing new can turn up.
pub open spec fn reached(lists: Seq<(Seq<char>, Seq<Seq<char>>)>, names: Seq<Seq<char>>) -> Seq<
    Seq<char>,
> {
    followed(lists, names, lists.len() as int + 1)
}

fn follow_once(lists: &Vec<(String, Vec<String>)>, names: &Vec<String>) -> (r: Vec<String>)
    ensures
        r.deep_view() == followed_once(lists.deep_view(), names.deep_view()),
{
    let ghost table = lists.deep_view();
    let ghost all = names.deep_view();
    let mut out = copy_texts(names);
    let mut i: usize = 0;
    while i < names.len()
        invariant
            i <= names@.len(),
            table == lists.deep_view(),
            all == names.deep_view(),
            out.deep_view() == listed_upto(table, all, i as int),
        decreases names@.len() - i,
    {
        if let Some(k) = find_key(lists, names[i].as_str()) {
            assert(table[k as int] == (lists[k as int].0@, lists[k as int].1.deep_view()));
            append_texts(&mut out, &lists[k].1);
        }
        i = i + 1;
    }
    without_repeats(&out)
}

/// Whether two lists hold the same texts.
fn same_texts(a: &Vec<String>, b: &Vec<String>) -> (r: bool)
    ensures
        r == (a.deep_view() == b.deep_view()),
{
    let ghost x = a.deep_view();
    let ghost y = b.deep_view();
    if a.len() != b.len() {
        assert(x.len() != y.len());
        return false;
    }
    let mut i: usize = 0;
    while i < a.len()
        invariant
            i <= a@.len(),
            a@.len() == b@.len(),
            x == a.deep_view(),
            y == b.deep_view(),
            forall|j: int| 0 <= j < i ==> #[trigger] x[j] == y[j],
        decreases a@.len() - i,
    {
        if !same(a[i].as_str(), b[i].as_str()) {
            assert(x[i as int] != y[i as int]);
            return false;
        }
        i = i + 1;
    }
    assert(x =~= y);
    true
}

proof fn followed_stays(
    lists: Seq<(Seq<char>, Seq<Seq<char>>)>,
    names: Seq<Seq<char>>,
    k: int,
    m: int,
)
    requires
        0 <= k <= m,
        followed(lists, names, k + 1) == followed(lists, names, k),
    ensures
        followed(lists, names, m) == followed(lists, names, k),
    decreases m - k,
{
    if k < m {
        followed_stays(lists, names, k, m - 1);
    }
}

/// The names that are reached by following lists.
pub fn follow_lists(lists: &Vec<(String, Vec<String>)>, names: &Vec<String>) -> (r: Vec<String>)
    ensures
        r.deep_view() == reached(lists.deep_view(), names.deep_view()),
{
    let ghost table = lists.deep_view();
    let ghost start = names.deep_view();
    let mut cur = follow_once(lists, names);
    let mut k: usize = 0;
    assert(followed(table, start, 0) == start);
    while k < lists.len()
        invariant
            k <= lists@.len(),
            table == lists.deep_view(),
            start == names.deep_view(),
            cur.deep_view() == followed(table, start, k + 1),
        decreases lists@.len() - k,
    {
        let next = follow_once(lists, &cur);
        assert(next.deep_view() == followed(table, start, k + 2));
        if same_texts(&next, &cur) {
            proof {
                followed_stays(table, start, k + 1, table.len() as int + 1);
            }
            return next;
        }
        cur = next;
        k = k + 1;
    }
    cur
}

/// The names and the dependencies that the first `n` variables hold.
pub open spec fn resolved_upto(
    variables: Seq<(Seq<char>, Seq<char>)>,
    names: Seq<Seq<char>>,
    direct: Seq<Seq<char>>,
    n: int,
) -> Seq<Seq<char>>
    decreases n,
{
    if n <= 0 {
        direct
    } else {
        let done = resolved_upto(variables, names, direct, n - 1);
        match value_at(variables, names[n - 1]) {
            Some(name) => done.push(name),
            None => done,
        }
    }
}

/// The names of the dependencies of a target, in order: those that its
/// parameters call for directly, and those of the variables that they reach in
/// the section.
pub open spec fn target_dependencies(section: Seq<char>, block: Seq<char>) -> Seq<Seq<char>> {
    let direct = captured("(?:dependency|find_library)\\s*\\(\\s*['\"]([^'\"]+)['\"]"@, block);
    let names = reached(lists_in(section), distinct(captured("(?m)([a-z_][a-z0-9_]*)"@, block)));
    sorted(distinct(resolved_upto(variables_in(section), names, direct, names.len() as int)))
}

/// A dependency of which only the name and the scope are known.
pub open spec fn bare_dependency(name: Seq<char>, scope: Option<Seq<char>>) -> DependencyView {
    DependencyView {
        name,
        version: None,
        version_req: None,
        kind: None,
        source: None,
        source_url: None,
        features: None,
        scope,
    }
}

/// Dependencies of which only the names are known.
pub open spec fn bare_dependencies(names: Seq<Seq<char>>) -> Seq<DependencyView> {
    Seq::new(names.len(), |i: int| bare_dependency(names[i], None))
}

fn make_dependencies(names: &Vec<String>) -> (r: Vec<Dependency>)
    ensures
        r.deep_view() == bare_dependencies(names.deep_view()),
{
    let ghost all = names.deep_view();
    let ghost one = |i: int| bare_dependency(all[i], None);
    let mut out: Vec<Dependency> = Vec::new();
    assert(out.deep_view() =~= Seq::new(0, one));
    let mut i: usize = 0;
    while i < names.len()
        invariant
            i <= names@.len(),
            all == names.deep_view(),
            one == (|i: int| bare_dependency(all[i], None)),
            out.deep_view() == Seq::new(i as nat, one),
        decreases names@.len() - i,
    {
        let mut d = Dependency::default();
        d.name = names[i].clone();
        add_item(&mut out, d);
        assert(out.deep_view() =~= Seq::new((i + 1) as nat, one));
        i = i + 1;
    }
    assert(out.deep_view() =~= bare_dependencies(all));
    out
}

/// The dependencies of a target: the section is the build file that declares it,
/// the block its parameters.
pub fn resolve_target_deps(section: &str, block: &str) -> (r: Vec<Dependency>)
    ensures
        r.deep_view() == bare_dependencies(target_dependencies(section@, block@)),
{
    let mut names = capture_texts("(?:dependency|find_library)\\s*\\(\\s*['\"]([^'\"]+)['\"]", block);
    let ghost direct = names.deep_view();
    let lists = find_lists(section);
    let variables = find_variables(section);
    let roots = without_repeats(&capture_texts("(?m)([a-z_][a-z0-9_]*)", block));
    let vars = follow_lists(&lists, &roots);
    let ghost table = variables.deep_view();
    let mut i: usize = 0;
    while i < vars.len()
        invariant
            i <= vars@.len(),
            table == variables.deep_view(),
            names.deep_view() == resolved_upto(table, vars.deep_view(), direct, i as int),
        decreases vars@.len() - i,
    {
        if let Some(k) = find_key(&variables, vars[i].as_str()) {
            assert(table[k as int] == (variables[k as int].0@, variables[k as int].1@));
            add_item(&mut names, variables[k].1.clone());
        }
        i = i + 1;
    }
    make_dependencies(&sort(&without_repeats(&names)))
}

// ---------------------------------------------------------------------------
// Sources of a target
// ---------------------------------------------------------------------------

/// The source files that a text names.
pub open spec fn files_in(text: Seq<char>) -> Seq<Seq<char>> {
    captured("['\"]([^'\"]+\\.(?:c|cpp|cc|cxx))['\"]"@, text)
}

/// The source files of the first `n` assignments.
pub open spec fn assigned_upto(text: Seq<char>, ms: Seq<Seq<Option<(usize, usize)>>>, n: int) -> Seq<Seq<char>>
    decreases n,
{
    if n <= 0 {
        Seq::empty()
    } else {
        let done = assigned_upto(text, ms, n - 1);
        match group_text(text, ms[n - 1], 1) {
            Some(g) => done + files_in(g),
            None => done,
        }
    }
}

/// The source files that a pattern's assignments name in a text.
pub open spec fn assigned(pattern: Seq<char>, text: Seq<char>) -> Seq<Seq<char>> {
    assigned_upto(text, matches_of(pattern, text), matches_of(pattern, text).len() as int)
}

fn add_assigned(out: &mut Vec<String>, pattern: &str, text: &str)
    ensures
        final(out).deep_view() == old(out).deep_view() + assigned(pattern@, text@),
{
    let ghost start = out.deep_view();
    let chars = chars_of(text);
    let ms = find_matches(pattern, text);
    let ghost all = ms.deep_view();
    let mut i: usize = 0;
    assert(out.deep_view() =~= start + assigned_upto(text@, all, 0));
    while i < ms.len()
        invariant
            i <= ms@.len(),
            chars@ == text@,
            all == ms.deep_view(),
            out.deep_view() == start + assigned_upto(text@, all, i as int),
        decreases ms@.len() - i,
    {
        if let Some(g) = text_at(&chars, &ms[i], 1) {
            add_items(out, capture_texts("['\"]([^'\"]+\\.(?:c|cpp|cc|cxx))['\"]", g.as_str()));
        }
        assert(out.deep_view() =~= start + assigned_upto(text@, all, i + 1));
        i = i + 1;
    }
}

/// An assignment or an addition of files to the variable.
pub open spec fn any_assignment(v: Seq<char>) -> Seq<char> {
    "(?m)^\\s*"@ + v + "\\s*(?:=|\\+=)\\s*files\\(\\s*([^)]+)\\)"@
}

/// An assignment of files to the variable.
pub open spec fn plain_assignment(v: Seq<char>) -> Seq<char> {
    "(?m)^\\s*"@ + v + "\\s*=\\s*files\\(\\s*([^)]+)\\)"@
}

fn any_assignment_of(v: &str) -> (r: String)
    ensures
        r@ == any_assignment(v@),
{
    let mut s = "(?m)^\\s*".to_owned();
    s.append(v);
    s.append("\\s*(?:=|\\+=)\\s*files\\(\\s*([^)]+)\\)");
    s
}

fn plain_assignment_of(v: &str) -> (r: String)
    ensures
        r@ == plain_assignment(v@),
{
    let mut s = "(?m)^\\s*".to_owned();
    s.append(v);
    s.append("\\s*=\\s*files\\(\\s*([^)]+)\\)");
    s
}

/// The files that the section assigns to the first `n` variables.
pub open spec fn local_files_upto(section: Seq<char>, vars: Seq<Seq<char>>, n: int) -> Seq<Seq<char>>
    decreases n,
{
    if n <= 0 {
        Seq::empty()
    } else {
        local_files_upto(section, vars, n - 1) + assigned(any_assignment(vars[n - 1]), section)
    }
}

/// The variables of the toolkit, and those among the first `n` that are assigned
/// files somewhere but not in the section.
pub open spec fn shared_vars_upto(
    text: Seq<char>,
    section: Seq<char>,
    vars: Seq<Seq<char>>,
    n: int,
) -> Seq<Seq<char>>
    decreases n,
{
    if n <= 0 {
        seq!["toolkit_sources"@, "wifi_provisioning_source"@, "mjpeg_bridge_sources"@]
    } else {
        let done = shared_vars_upto(text, section, vars, n - 1);
        let v = vars[n - 1];
        if !done.contains(v) && !is_matched(any_assignment(v), section) && is_matched(
            plain_assignment(v),
            text,
        ) {
            done.push(v)
        } else {
            done
        }
    }
}

/// The files that the whole text assigns to the first `n` variables, with or
/// without those of implementations.
pub open spec fn global_files_upto(
    text: Seq<char>,
    vars: Seq<Seq<char>>,
    impls: bool,
    n: int,
) -> Seq<Seq<char>>
    decreases n,
{
    if n <= 0 {
        Seq::empty()
    } else {
        let done = global_files_upto(text, vars, impls, n - 1);
        if impls || !begins(vars[n - 1], "hal_impl_"@) {
            done + assigned(plain_assignment(vars[n - 1]), text)
        } else {
            done
        }
    }
}

/// The variables that the parameters of a target add up.
pub open spec fn block_vars(block: Seq<char>) -> Seq<Seq<char>> {
    captured("\\b([A-Za-z_][A-Za-z0-9_]*)\\b"@, block)
}

/// The shared variables of a target.
pub open spec fn shared_vars(text: Seq<char>, section: Seq<char>, block: Seq<char>) -> Seq<Seq<char>> {
    shared_vars_upto(text, section, block_vars(block), block_vars(block).len() as int)
}

/// The source files of a target, in order, each once: those named in its
/// parameters, those of the variables there that the section assigns, and those
/// of shared variables.
pub open spec fn target_files(text: Seq<char>, section: Seq<char>, block: Seq<char>) -> Seq<Seq<char>> {
    let vars = block_vars(block);
    let shared = shared_vars(text, section, block);
    sorted(
        distinct(
            files_in(block) + local_files_upto(section, vars, vars.len() as int)
                + global_files_upto(text, shared, true, shared.len() as int),
        ),
    )
}

/// The source files of a target that belong to the shared toolkit.
pub open spec fn shared_files(text: Seq<char>, section: Seq<char>, block: Seq<char>) -> Seq<Seq<char>> {
    let shared = shared_vars(text, section, block);
    distinct(global_files_upto(text, shared, false, shared.len() as int))
}

fn find_shared_vars(text: &str, section: &str, vars: &Vec<String>) -> (r: Vec<String>)
    ensures
        r.deep_view() == shared_vars_upto(
            text@,
            section@,
            vars.deep_view(),
            vars.deep_view().len() as int,
        ),
{
    let ghost all = vars.deep_view();
    let mut out = vec![
        "toolkit_sources".to_owned(),
        "wifi_provisioning_source".to_owned(),
        "mjpeg_bridge_sources".to_owned(),
    ];
    assert(out.deep_view() =~= shared_vars_upto(text@, section@, all, 0));
    let mut i: usize = 0;
    while i < vars.len()
        invariant
            i <= vars@.len(),
            all == vars.deep_view(),
            out.deep_view() == shared_vars_upto(text@, section@, all, i as int),
        decreases vars@.len() - i,
    {
        let v = vars[i].as_str();
        if !list_has(&out, v) && !is_match(any_assignment_of(v).as_str(), section) && is_match(
            plain_assignment_of(v).as_str(),
            text,
        ) {
            add_item(&mut out, v.to_owned());
        }
        i = i + 1;
    }
    out
}

fn find_global_files(text: &str, vars: &Vec<String>, impls: bool) -> (r: Vec<String>)
    ensures
        r.deep_view() == global_files_upto(
            text@,
            vars.deep_view(),
            impls,
            vars.deep_view().len() as int,
        ),
{
    let ghost all = vars.deep_view();
    let mut out: Vec<String> = Vec::new();
    assert(out.deep_view() =~= Seq::empty());
    let mut i: usize = 0;
    while i < vars.len()
        invariant
            i <= vars@.len(),
            all == vars.deep_view(),
            out.deep_view() == global_files_upto(text@, all, impls, i as int),
        decreases vars@.len() - i,
    {
        let v = vars[i].as_str();
        if impls || !starts_with(v, "hal_impl_") {
            add_assigned(&mut out, plain_assignment_of(v).as_str(), text);
        }
        i = i + 1;
    }
    out
}

/// The source files of a target, and those of the shared toolkit among them.
pub fn find_target_files(text: &str, section: &str, block: &str) -> (r: (Vec<String>, Vec<String>))
    ensures
        r.0.deep_view() == target_files(text@, section@, block@),
        r.1.deep_view() == shared_files(text@, section@, block@),
{
    let vars = capture_texts("\\b([A-Za-z_][A-Za-z0-9_]*)\\b", block);
    let ghost all = vars.deep_view();
    let mut files = capture_texts("['\"]([^'\"]+\\.(?:c|cpp|cc|cxx))['\"]", block);
    let ghost direct = files.deep_view();
    let mut i: usize = 0;
    assert(files.deep_view() =~= direct + local_files_upto(section@, all, 0));
    while i < vars.len()
        invariant
            i <= vars@.len(),
            all == vars.deep_view(),
            files.deep_view() == direct + local_files_upto(section@, all, i as int),
        decreases vars@.len() - i,
    {
        add_assigned(&mut files, any_assignment_of(vars[i].as_str()).as_str(), section);
        assert(files.deep_view() =~= direct + local_files_upto(section@, all, i + 1));
        i = i + 1;
    }
    let shared = find_shared_vars(text, section, &vars);
    add_items(&mut files, find_global_files(text, &shared, true));
    let common = find_global_files(text, &shared, false);
    (sort(&without_repeats(&files)), without_repeats(&common))
}

// ---------------------------------------------------------------------------
// Targets
// ---------------------------------------------------------------------------

/// The build file of a subdirectory, where it can be read.
pub open spec fn subdir_text(t: ProjectTreeView, sub: Seq<char>) -> Option<Seq<char>> {
    match plain_path(t.root, sub + "/meson.build"@) {
        Some(path) => content_at(t, path),
        None => None,
    }
}

/// The build files put together: the top one, and behind it those of the first
/// `n` subdirectories that it names, without comments; with the place of each
/// subdirectory's part.
pub open spec fn gathered_upto(
    t: ProjectTreeView,
    content: Seq<char>,
    ms: Seq<Seq<Option<(usize, usize)>>>,
    n: int,
) -> (Seq<char>, Seq<(Seq<char>, usize, usize)>)
    decreases n,
{
    if n <= 0 {
        (content, Seq::empty())
    } else {
        let (text, parts) = gathered_upto(t, content, ms, n - 1);
        match group_text(content, ms[n - 1], 1) {
            Some(g) => {
                let sub = trimmed(g);
                if sub.len() == 0 || begins(sub, ".."@) {
                    (text, parts)
                } else {
                    match subdir_text(t, sub) {
                        Some(c) => {
                            let next = text + "\n"@ + without_comments(c);
                            (next, parts.push((sub, text.len() as usize, next.len() as usize)))
                        },
                        None => (text, parts),
                    }
                }
            },
            None => (text, parts),
        }
    }
}

/// The build files put together.
pub open spec fn gathered(t: ProjectTreeView, content: Seq<char>) -> (
    Seq<char>,
    Seq<(Seq<char>, usize, usize)>,
) {
    let ms = matches_of("subdir\\s*\\(\\s*['\"]([^'\"]+)['\"]"@, content);
    gathered_upto(t, content, ms, ms.len() as int)
}

fn gather(tree: &ProjectTree, content: &str) -> (r: (String, Vec<(String, usize, usize)>))
    ensures
        r.0@ == gathered(tree.deep_view(), content@).0,
        r.1.deep_view() == gathered(tree.deep_view(), content@).1,
{
    let ghost t = tree.deep_view();
    let none = String::new();
    assert(none@ =~= Seq::empty());
    let chars = chars_of(content);
    let ms = find_matches("subdir\\s*\\(\\s*['\"]([^'\"]+)['\"]", content);
    let ghost all = ms.deep_view();
    let mut text = content.to_owned();
    let mut parts: Vec<(String, usize, usize)> = Vec::new();
    assert(parts.deep_view() =~= Seq::empty());
    let mut i: usize = 0;
    while i < ms.len()
        invariant
            i <= ms@.len(),
            t == tree.deep_view(),
            none@ == Seq::<char>::empty(),
            chars@ == content@,
            all == ms.deep_view(),
            text@ == gathered_upto(t, content@, all, i as int).0,
            parts.deep_view() == gathered_upto(t, content@, all, i as int).1,
        decreases ms@.len() - i,
    {
        if let Some(g) = text_at(&chars, &ms[i], 1) {
            let sub = trim(g.as_str());
            if sub.unicode_len() > 0 && !starts_with(sub, "..") {
                let mut file = sub.to_owned();
                file.append("/meson.build");
                let found = match to_plain_path(tree.root.as_str(), file.as_str()) {
                    Some(path) => tree.read(path.as_str()),
                    None => None,
                };
                if let Some(c) = found {
                    let bare = replace_matches("(?m)#.*$", c.as_str(), none.as_str());
                    let start: usize = text.as_str().unicode_len();
                    text.append("\n");
                    text.append(bare.as_str());
                    let end: usize = text.as_str().unicode_len();
                    add_item(&mut parts, (sub.to_owned(), start, end));
                }
            }
        }
        i = i + 1;
    }
    (text, parts)
}

/// The build files out of the root that the first `n` matches lead to, each once.
pub open spec fn outer_files_upto(
    root: Seq<char>,
    content: Seq<char>,
    ms: Seq<Seq<Option<(usize, usize)>>>,
    n: int,
) -> Seq<Seq<char>>
    decreases n,
{
    if n <= 0 {
        Seq::empty()
    } else {
        let done = outer_files_upto(root, content, ms, n - 1);
        match word_at(content, ms[n - 1], 1) {
            Some(sub) => match plain_path(root, sub + "/meson.build"@) {
                Some(path) => if begins(path, "../"@) && !done.contains(path) {
                    done.push(path)
                } else {
                    done
                },
                None => done,
            },
            None => done,
        }
    }
}

/// The build files out of the root to which the subdirectories of a top build file
/// lead: a tree that is to show what they declare has them too.
pub fn outer_build_files(root: &str, build_file: &str) -> (r: Vec<String>)
    ensures
        r.deep_view() == ({
            let content = without_comments(build_file@);
            let ms = matches_of("subdir\\s*\\(\\s*['\"]([^'\"]+)['\"]"@, content);
            outer_files_upto(root@, content, ms, ms.len() as int)
        }),
{
    let none = String::new();
    assert(none@ =~= Seq::empty());
    let content = replace_matches("(?m)#.*$", build_file, none.as_str());
    let chars = chars_of(content.as_str());
    let ms = find_matches("subdir\\s*\\(\\s*['\"]([^'\"]+)['\"]", content.as_str());
    let ghost all = ms.deep_view();
    let mut out: Vec<String> = Vec::new();
    assert(out.deep_view() =~= Seq::empty());
    let mut i: usize = 0;
    while i < ms.len()
        invariant
            i <= ms@.len(),
            chars@ == content@,
            all == ms.deep_view(),
            out.deep_view() == outer_files_upto(root@, content@, all, i as int),
        decreases ms@.len() - i,
    {
        if let Some(sub) = find_word(&chars, &ms[i], 1) {
            let mut file = sub;
            file.append("/meson.build");
            if let Some(path) = to_plain_path(root, file.as_str()) {
                if starts_with(path.as_str(), "../") && !list_has(&out, path.as_str()) {
                    add_item(&mut out, path);
                }
            }
        }
        i = i + 1;
    }
    out
}

/// The part from `k` on that the character stands in.
pub open spec fn part_from(parts: Seq<(Seq<char>, usize, usize)>, at: int, k: int) -> Option<int>
    decreases parts.len() - k,
{
    if k < 0 || k >= parts.len() {
        None
    } else if parts[k].1 <= at && at < parts[k].2 {
        Some(k)
    } else {
        part_from(parts, at, k + 1)
    }
}

/// The characters between two places.
pub open spec fn stretch(text: Seq<char>, from: int, to: int) -> Seq<char> {
    if 0 <= from <= to <= text.len() {
        text.subrange(from, to)
    } else {
        Seq::empty()
    }
}

fn stretch_of(chars: &Vec<char>, from: usize, to: usize) -> (r: String)
    ensures
        r@ == stretch(chars@, from as int, to as int),
{
    if from <= to && to <= chars.len() {
        text_of(chars, from, to)
    } else {
        let r = String::new();
        assert(r@ =~= Seq::empty());
        r
    }
}

/// The section of the build files that a target at the character stands in, and
/// its platform: its subdirectory's part, or, for the host, what stands before
/// it.
pub open spec fn section_at(text: Seq<char>, parts: Seq<(Seq<char>, usize, usize)>, at: int) -> (
    Seq<char>,
    Seq<char>,
) {
    match part_from(parts, at, 0) {
        Some(k) => (stretch(text, parts[k].1 as int, parts[k].2 as int), parts[k].0),
        None => (stretch(text, 0, at), "host"@),
    }
}

fn find_section(chars: &Vec<char>, parts: &Vec<(String, usize, usize)>, at: usize) -> (r: (
    String,
    String,
))
    ensures
        r.0@ == section_at(chars@, parts.deep_view(), at as int).0,
        r.1@ == section_at(chars@, parts.deep_view(), at as int).1,
{
    let ghost all = parts.deep_view();
    let mut k: usize = 0;
    while k < parts.len()
        invariant
            k <= parts@.len(),
            all == parts.deep_view(),
            part_from(all, at as int, 0) == part_from(all, at as int, k as int),
        decreases parts@.len() - k,
    {
        assert(all[k as int] == (parts[k as int].0@, parts[k as int].1, parts[k as int].2));
        if parts[k].1 <= at && at < parts[k].2 {
            return (stretch_of(chars, parts[k].1, parts[k].2), parts[k].0.clone());
        }
        k = k + 1;
    }
    (stretch_of(chars, 0, at), "host".to_owned())
}

/// The parameters of a call from `from` on, up to the parenthesis that closes it.
pub open spec fn block_at(text: Seq<char>, from: int) -> Seq<char> {
    match paren_from(text, 1, from) {
        Some(k) => stretch(text, from, k),
        None => stretch(text, from, text.len() as int),
    }
}

fn find_block(chars: &Vec<char>, from: usize) -> (r: String)
    ensures
        r@ == block_at(chars@, from as int),
{
    let mut deeper: usize = 0;
    let mut i: usize = from;
    while i < chars.len()
        invariant
            from <= i,
            deeper <= i - from,
            paren_from(chars@, 1, from as int) == paren_from(chars@, deeper + 1, i as int),
        decreases chars@.len() - i,
    {
        if chars[i] == '(' {
            deeper = deeper + 1;
        } else if chars[i] == ')' {
            if deeper == 0 {
                return stretch_of(chars, from, i);
            }
            deeper = deeper - 1;
        }
        i = i + 1;
    }
    stretch_of(chars, from, chars.len())
}

/// The rest of the first call that a pattern finds, behind what the pattern takes of
/// it.
pub open spec fn first_call(pattern: Seq<char>, text: Seq<char>) -> Option<Seq<char>> {
    let ms = matches_of(pattern, text);
    if ms.len() == 0 {
        None
    } else {
        Some(block_at(text, index_at(text, match_end(ms[0]))))
    }
}

fn find_call(pattern: &str, text: &str) -> (r: Option<String>)
    ensures
        r.deep_view() == first_call(pattern@, text@),
{
    let ms = find_matches(pattern, text);
    if ms.len() == 0 {
        None
    } else {
        let chars = chars_of(text);
        assert(ms.deep_view()[0] == ms[0].deep_view());
        let from: usize = char_index(&chars, end_at(&ms[0]));
        Some(find_block(&chars, from))
    }
}

/// The file is an implementation of a contract, by its path.
pub open spec fn is_impl_path(path: Seq<char>) -> bool {
    has_text(path, "hal/"@) || has_text(path, "implementations/"@)
}

/// Some of the first `n` files is no shared one and is, or is not, an
/// implementation.
pub open spec fn some_file(files: Seq<Seq<char>>, shared: Seq<Seq<char>>, impls: bool) -> bool {
    exists|i: int|
        0 <= i < files.len() && !shared.contains(#[trigger] files[i]) && is_impl_path(files[i])
            == impls
}

fn has_some_file(files: &Vec<String>, shared: &Vec<String>, impls: bool) -> (r: bool)
    ensures
        r == some_file(files.deep_view(), shared.deep_view(), impls),
{
    let ghost all = files.deep_view();
    let ghost common = shared.deep_view();
    let mut i: usize = 0;
    while i < files.len()
        invariant
            i <= files@.len(),
            all == files.deep_view(),
            common == shared.deep_view(),
            forall|j: int|
                0 <= j < i ==> !(!common.contains(#[trigger] all[j]) && is_impl_path(all[j])
                    == impls),
        decreases files@.len() - i,
    {
        let f = files[i].as_str();
        let is_impl = contains(f, "hal/") || contains(f, "implementations/");
        if !list_has(shared, f) && is_impl == impls {
            assert(!common.contains(all[i as int]) && is_impl_path(all[i as int]) == impls);
            return true;
        }
        i = i + 1;
    }
    false
}

/// A group of C++ sources.
pub open spec fn cpp_unit(role: SourceRole, path: Seq<char>) -> SourceUnitView {
    SourceUnitView { role, path, language: "C++"@ }
}

/// The groups of a target's sources: application, implementations, toolkit.
pub open spec fn source_units(
    files: Seq<Seq<char>>,
    shared: Seq<Seq<char>>,
    platform: Seq<char>,
) -> Seq<SourceUnitView> {
    (if some_file(files, shared, false) {
        seq![cpp_unit(SourceRole::App, platform)]
    } else {
        Seq::empty()
    }) + (if some_file(files, shared, true) {
        seq![cpp_unit(SourceRole::HalImplementation, platform + "/hal"@)]
    } else {
        Seq::empty()
    }) + (if shared.len() > 0 {
        seq![cpp_unit(SourceRole::Shared, "toolkit"@)]
    } else {
        Seq::empty()
    })
}

fn make_units(files: &Vec<String>, shared: &Vec<String>, platform: &str) -> (r: Vec<SourceUnit>)
    ensures
        r.deep_view() == source_units(files.deep_view(), shared.deep_view(), platform@),
{
    let mut out: Vec<SourceUnit> = Vec::new();
    assert(out.deep_view() =~= Seq::empty());
    if has_some_file(files, shared, false) {
        add_item(
            &mut out,
            SourceUnit {
                role: SourceRole::App,
                path: platform.to_owned(),
                language: "C++".to_owned(),
            },
        );
    }
    if has_some_file(files, shared, true) {
        let mut path = platform.to_owned();
        path.append("/hal");
        add_item(
            &mut out,
            SourceUnit {
                role: SourceRole::HalImplementation,
                path,
                language: "C++".to_owned(),
            },
        );
    }
    if shared.len() > 0 {
        add_item(
            &mut out,
            SourceUnit {
                role: SourceRole::Shared,
                path: "toolkit".to_owned(),
                language: "C++".to_owned(),
            },
        );
    }
    assert(out.deep_view() =~= source_units(files.deep_view(), shared.deep_view(), platform@));
    out
}

/// The target that a match declares.
pub open spec fn target_at(
    text: Seq<char>,
    parts: Seq<(Seq<char>, usize, usize)>,
    kind: Seq<char>,
    name: Seq<char>,
    m: Seq<Option<(usize, usize)>>,
) -> BuildTargetView {
    let (section, platform) = section_at(text, parts, index_at(text, match_start(m)));
    let block = block_at(text, index_at(text, match_end(m)));
    let files = target_files(text, section, block);
    let shared = shared_files(text, section, block);
    BuildTargetView {
        name,
        kind: seq![kind],
        source_path: None,
        source_files: files,
        dependencies: bare_dependencies(target_dependencies(section, block)),
        platform,
        source_kind: SourceKind::Composite,
        source_units: source_units(files, shared, platform),
        build_spec: None,
    }
}

/// The target of a call, from the groups of the match of its head.
pub fn find_target(
    text: &str,
    chars: &Vec<char>,
    parts: &Vec<(String, usize, usize)>,
    kind: &str,
    name: &str,
    m: &Vec<Option<(usize, usize)>>,
) -> (r: BuildTarget)
    requires
        chars@ == text@,
    ensures
        r.deep_view() == target_at(text@, parts.deep_view(), kind@, name@, m.deep_view()),
{
    let at: usize = char_index(chars, start_at(m));
    let (section, platform) = find_section(chars, parts, at);
    let block = find_block(chars, char_index(chars, end_at(m)));
    let (files, shared) = find_target_files(text, section.as_str(), block.as_str());
    let units = make_units(&files, &shared, platform.as_str());
    let mut t = BuildTarget::default();
    t.name = name.to_owned();
    t.kind = vec![kind.to_owned()];
    t.source_files = files;
    t.dependencies = resolve_target_deps(section.as_str(), block.as_str());
    t.platform = platform;
    t.source_kind = SourceKind::Composite;
    t.source_units = units;
    assert(t.kind.deep_view() =~= seq![kind@]);
    assert(t.deep_view() =~= target_at(text@, parts.deep_view(), kind@, name@, m.deep_view()));
    t
}

/// Some target has the name.
pub open spec fn has_target(targets: Seq<BuildTargetView>, name: Seq<char>) -> bool {
    exists|i: int| 0 <= i < targets.len() && (#[trigger] targets[i]).name == name
}

fn knows_target(targets: &Vec<BuildTarget>, name: &str) -> (r: bool)
    ensures
        r == has_target(targets.deep_view(), name@),
{
    let ghost all = targets.deep_view();
    let mut i: usize = 0;
    while i < targets.len()
        invariant
            i <= targets@.len(),
            all == targets.deep_view(),
            forall|j: int| 0 <= j < i ==> (#[trigger] all[j]).name != name@,
        decreases targets@.len() - i,
    {
        assert(all[i as int] == targets[i as int].deep_view());
        if same(targets[i].name.as_str(), name) {
            return true;
        }
        i = i + 1;
    }
    false
}

/// The targets found before and those of the first `n` matches of one kind; a
/// name that is taken or empty is passed over.
pub open spec fn kind_targets_upto(
    text: Seq<char>,
    parts: Seq<(Seq<char>, usize, usize)>,
    kind: Seq<char>,
    first: Seq<BuildTargetView>,
    ms: Seq<Seq<Option<(usize, usize)>>>,
    n: int,
) -> Seq<BuildTargetView>
    decreases n,
{
    if n <= 0 {
        first
    } else {
        let done = kind_targets_upto(text, parts, kind, first, ms, n - 1);
        match group_text(text, ms[n - 1], 1) {
            Some(g) => if trimmed(g).len() == 0 || has_target(done, trimmed(g)) {
                done
            } else {
                done.push(target_at(text, parts, kind, trimmed(g), ms[n - 1]))
            },
            None => done,
        }
    }
}

/// The targets found before and those of one kind.
pub open spec fn with_kind(
    text: Seq<char>,
    parts: Seq<(Seq<char>, usize, usize)>,
    kind: Seq<char>,
    pattern: Seq<char>,
    first: Seq<BuildTargetView>,
) -> Seq<BuildTargetView> {
    let ms = matches_of(pattern, text);
    kind_targets_upto(text, parts, kind, first, ms, ms.len() as int)
}

fn add_kind(
    text: &str,
    parts: &Vec<(String, usize, usize)>,
    kind: &str,
    pattern: &str,
    targets: &mut Vec<BuildTarget>,
)
    ensures
        final(targets).deep_view() == with_kind(
            text@,
            parts.deep_view(),
            kind@,
            pattern@,
            old(targets).deep_view(),
        ),
{
    let ghost first = targets.deep_view();
    let ghost sections = parts.deep_view();
    let chars = chars_of(text);
    let ms = find_matches(pattern, text);
    let ghost all = ms.deep_view();
    let mut i: usize = 0;
    while i < ms.len()
        invariant
            i <= ms@.len(),
            chars@ == text@,
            sections == parts.deep_view(),
            all == ms.deep_view(),
            targets.deep_view() == kind_targets_upto(
                text@,
                sections,
                kind@,
                first,
                all,
                i as int,
            ),
        decreases ms@.len() - i,
    {
        if let Some(g) = text_at(&chars, &ms[i], 1) {
            let name = trim(g.as_str());
            if name.unicode_len() > 0 && !knows_target(targets, name) {
                add_item(targets, find_target(text, &chars, parts, kind, name, &ms[i]));
            }
        }
        i = i + 1;
    }
}

/// The targets that the build files declare, by kind.
pub open spec fn targets_in(text: Seq<char>, parts: Seq<(Seq<char>, usize, usize)>) -> Seq<
    BuildTargetView,
> {
    let none = Seq::empty();
    let found0 = with_kind(text, parts, "executable"@, "executable\\s*\\(\\s*['\"]([^'\"]+)['\"]"@, none);
    let found1 = with_kind(text, parts, "library"@, "(?:^|[^[:alnum:]_])library\\s*\\(\\s*['\"]([^'\"]+)['\"]"@, found0);
    let found2 = with_kind(text, parts, "shared_library"@, "shared_library\\s*\\(\\s*['\"]([^'\"]+)['\"]"@, found1);
    let found3 = with_kind(text, parts, "static_library"@, "static_library\\s*\\(\\s*['\"]([^'\"]+)['\"]"@, found2);
    let found4 = with_kind(text, parts, "both_libraries"@, "both_libraries\\s*\\(\\s*['\"]([^'\"]+)['\"]"@, found3);
    let found5 = with_kind(text, parts, "jar"@, "jar\\s*\\(\\s*['\"]([^'\"]+)['\"]"@, found4);
    let found6 = with_kind(text, parts, "shared_module"@, "shared_module\\s*\\(\\s*['\"]([^'\"]+)['\"]"@, found5);
    found6
}

fn find_targets(text: &str, parts: &Vec<(String, usize, usize)>) -> (r: Vec<BuildTarget>)
    ensures
        r.deep_view() == targets_in(text@, parts.deep_view()),
{
    let mut targets: Vec<BuildTarget> = Vec::new();
    assert(targets.deep_view() =~= Seq::empty());
    add_kind(text, parts, "executable", "executable\\s*\\(\\s*['\"]([^'\"]+)['\"]", &mut targets);
    add_kind(text, parts, "library", "(?:^|[^[:alnum:]_])library\\s*\\(\\s*['\"]([^'\"]+)['\"]", &mut targets);
    add_kind(text, parts, "shared_library", "shared_library\\s*\\(\\s*['\"]([^'\"]+)['\"]", &mut targets);
    add_kind(text, parts, "static_library", "static_library\\s*\\(\\s*['\"]([^'\"]+)['\"]", &mut targets);
    add_kind(text, parts, "both_libraries", "both_libraries\\s*\\(\\s*['\"]([^'\"]+)['\"]", &mut targets);
    add_kind(text, parts, "jar", "jar\\s*\\(\\s*['\"]([^'\"]+)['\"]", &mut targets);
    add_kind(text, parts, "shared_module", "shared_module\\s*\\(\\s*['\"]([^'\"]+)['\"]", &mut targets);
    targets
}

// ---------------------------------------------------------------------------
// Scopes of dependencies
// ---------------------------------------------------------------------------

/// Some dependency has the name.
pub open spec fn has_dependency(deps: Seq<DependencyView>, name: Seq<char>) -> bool {
    exists|i: int| 0 <= i < deps.len() && (#[trigger] deps[i]).name == name
}

/// Every target behind the first has a dependency of the name.
pub open spec fn on_all_others(targets: Seq<BuildTargetView>, name: Seq<char>) -> bool {
    forall|i: int| 1 <= i < targets.len() ==> has_dependency((#[trigger] targets[i]).dependencies, name)
}

/// A dependency of the name is shared: there are several targets and each has
/// it.
pub open spec fn is_shared(targets: Seq<BuildTargetView>, name: Seq<char>) -> bool {
    targets.len() > 1 && has_dependency(targets[0].dependencies, name) && on_all_others(
        targets,
        name,
    )
}

/// The dependencies with their scopes.
pub open spec fn scoped_dependencies(
    targets: Seq<BuildTargetView>,
    deps: Seq<DependencyView>,
) -> Seq<DependencyView> {
    Seq::new(
        deps.len(),
        |i: int|
            DependencyView {
                scope: Some(
                    if is_shared(targets, deps[i].name) {
                        "shared"@
                    } else {
                        "platform"@
                    },
                ),
                ..deps[i]
            },
    )
}

/// The targets with the scopes of their dependencies.
pub open spec fn scoped(targets: Seq<BuildTargetView>) -> Seq<BuildTargetView> {
    Seq::new(
        targets.len(),
        |i: int|
            BuildTargetView {
                dependencies: scoped_dependencies(targets, targets[i].dependencies),
                ..targets[i]
            },
    )
}

fn knows_dependency(deps: &Vec<Dependency>, name: &str) -> (r: bool)
    ensures
        r == has_dependency(deps.deep_view(), name@),
{
    let ghost all = deps.deep_view();
    let mut i: usize = 0;
    while i < deps.len()
        invariant
            i <= deps@.len(),
            all == deps.deep_view(),
            forall|j: int| 0 <= j < i ==> (#[trigger] all[j]).name != name@,
        decreases deps@.len() - i,
    {
        assert(all[i as int] == deps[i as int].deep_view());
        if same(deps[i].name.as_str(), name) {
            return true;
        }
        i = i + 1;
    }
    false
}

fn finds_shared(targets: &Vec<BuildTarget>, name: &str) -> (r: bool)
    ensures
        r == is_shared(targets.deep_view(), name@),
{
    let ghost all = targets.deep_view();
    if targets.len() <= 1 {
        return false;
    }
    assert(all[0] == targets[0].deep_view());
    if !knows_dependency(&targets[0].dependencies, name) {
        return false;
    }
    let mut i: usize = 1;
    while i < targets.len()
        invariant
            1 <= i <= targets@.len(),
            all == targets.deep_view(),
            forall|j: int| 1 <= j < i ==> has_dependency((#[trigger] all[j]).dependencies, name@),
        decreases targets@.len() - i,
    {
        assert(all[i as int] == targets[i as int].deep_view());
        if !knows_dependency(&targets[i].dependencies, name) {
            assert(!has_dependency(all[i as int].dependencies, name@));
            return false;
        }
        i = i + 1;
    }
    true
}

fn scope_dependencies(targets: &Vec<BuildTarget>, deps: &Vec<Dependency>) -> (r: Vec<Dependency>)
    ensures
        r.deep_view() == scoped_dependencies(targets.deep_view(), deps.deep_view()),
{
    let ghost goals = targets.deep_view();
    let ghost all = deps.deep_view();
    let ghost want = scoped_dependencies(goals, all);
    let mut out: Vec<Dependency> = Vec::new();
    assert(out.deep_view() =~= want.take(0));
    let mut i: usize = 0;
    while i < deps.len()
        invariant
            i <= deps@.len(),
            goals == targets.deep_view(),
            all == deps.deep_view(),
            want == scoped_dependencies(goals, all),
            out.deep_view() == want.take(i as int),
        decreases deps@.len() - i,
    {
        let mut d = deps[i].clone();
        let scope = if finds_shared(targets, d.name.as_str()) {
            "shared"
        } else {
            "platform"
        };
        d.scope = Some(scope.to_owned());
        assert(d.deep_view() =~= want[i as int]);
        add_item(&mut out, d);
        assert(want.take(i + 1) =~= want.take(i as int).push(want[i as int]));
        i = i + 1;
    }
    assert(want.take(want.len() as int) =~= want);
    out
}

fn scope_targets(targets: &Vec<BuildTarget>) -> (r: Vec<BuildTarget>)
    ensures
        r.deep_view() == scoped(targets.deep_view()),
{
    let ghost all = targets.deep_view();
    let ghost want = scoped(all);
    let mut out: Vec<BuildTarget> = Vec::new();
    assert(out.deep_view() =~= want.take(0));
    let mut i: usize = 0;
    while i < targets.len()
        invariant
            i <= targets@.len(),
            all == targets.deep_view(),
            want == scoped(all),
            out.deep_view() == want.take(i as int),
        decreases targets@.len() - i,
    {
        let mut t = targets[i].clone();
        t.dependencies = scope_dependencies(targets, &targets[i].dependencies);
        assert(t.deep_view() =~= want[i as int]);
        add_item(&mut out, t);
        assert(want.take(i + 1) =~= want.take(i as int).push(want[i as int]));
        i = i + 1;
    }
    assert(want.take(want.len() as int) =~= want);
    out
}

// ---------------------------------------------------------------------------
// Platforms
// ---------------------------------------------------------------------------

/// The texts among the first `n` that are not blank, without blanks around them.
pub open spec fn solid_upto(parts: Seq<Seq<char>>, n: int) -> Seq<Seq<char>>
    decreases n,
{
    if n <= 0 {
        Seq::empty()
    } else {
        let done = solid_upto(parts, n - 1);
        if trimmed(parts[n - 1]).len() > 0 {
            done.push(trimmed(parts[n - 1]))
        } else {
            done
        }
    }
}

/// The platforms that the documented values of an option name.
pub open spec fn documented_platforms(option: Seq<char>) -> Seq<Seq<char>> {
    match first_group("(?i)valid\\s+values\\s*:\\s*([A-Za-z0-9_ ,\\-]+)"@, option, 1) {
        Some(v) => solid_upto(pieces(v, ','), pieces(v, ',').len() as int),
        None => Seq::empty(),
    }
}

/// The `platform` option of an options file, from its name on.
pub open spec fn platform_option(options: Seq<char>) -> Option<Seq<char>> {
    first_call("option\\s*\\(\\s*['\"]platform['\"]"@, options)
}

/// The platforms that an options file declares: the documented values of its
/// `platform` option, or that option's default.
pub open spec fn platform_values(options: Option<Seq<char>>) -> Seq<Seq<char>> {
    match options {
        Some(c) => match platform_option(c) {
            Some(option) => if documented_platforms(option).len() > 0 {
                documented_platforms(option)
            } else {
                match first_group("value\\s*:\\s*['\"]([^'\"]+)['\"]"@, option, 1) {
                    Some(v) => seq![v],
                    None => Seq::empty(),
                }
            },
            None => Seq::empty(),
        },
        None => Seq::empty(),
    }
}

/// The platforms that an options file declares.
pub fn find_platform_values(options: &Option<String>) -> (r: Vec<String>)
    ensures
        r.deep_view() == platform_values(options.deep_view()),
{
    let mut out: Vec<String> = Vec::new();
    assert(out.deep_view() =~= Seq::empty());
    let text = match options {
        Some(c) => c.as_str(),
        None => {
            return out;
        },
    };
    let option = match find_call("option\\s*\\(\\s*['\"]platform['\"]", text) {
        Some(option) => option,
        None => {
            return out;
        },
    };
    if let Some(v) = first_match("(?i)valid\\s+values\\s*:\\s*([A-Za-z0-9_ ,\\-]+)", option.as_str(), 1) {
        let parts = split(v.as_str(), ',');
        let mut i: usize = 0;
        while i < parts.len()
            invariant
                i <= parts@.len(),
                out.deep_view() == solid_upto(parts.deep_view(), i as int),
            decreases parts@.len() - i,
        {
            let p = trim(parts[i].as_str());
            if p.unicode_len() > 0 {
                add_item(&mut out, p.to_owned());
            }
            i = i + 1;
        }
    }
    if out.len() == 0 {
        if let Some(v) = first_match("value\\s*:\\s*['\"]([^'\"]+)['\"]", option.as_str(), 1) {
            add_item(&mut out, v);
            assert(out.deep_view() =~= seq![v@]);
        }
    }
    out
}

/// Some platform is not the host.
pub open spec fn has_cross_platform(platforms: Seq<Seq<char>>) -> bool {
    exists|i: int| 0 <= i < platforms.len() && #[trigger] platforms[i] != "host"@
}

/// The shape of a project: contracts make it a HAL project, several platforms
/// without contracts a project of one source.
pub open spec fn shape_of(interfaces: nat, platforms: Seq<Seq<char>>) -> ProjectStructure {
    if interfaces > 0 {
        ProjectStructure::Hal
    } else if has_cross_platform(platforms) {
        ProjectStructure::SingleSource
    } else {
        ProjectStructure::Native
    }
}

fn find_shape(interfaces: usize, platforms: &Vec<String>) -> (r: ProjectStructure)
    ensures
        r == shape_of(interfaces as nat, platforms.deep_view()),
{
    if interfaces > 0 {
        return ProjectStructure::Hal;
    }
    let ghost all = platforms.deep_view();
    let mut i: usize = 0;
    while i < platforms.len()
        invariant
            i <= platforms@.len(),
            interfaces == 0,
            all == platforms.deep_view(),
            forall|j: int| 0 <= j < i ==> #[trigger] all[j] == "host"@,
        decreases platforms@.len() - i,
    {
        if !same(platforms[i].as_str(), "host") {
            assert(all[i as int] != "host"@);
            return ProjectStructure::SingleSource;
        }
        i = i + 1;
    }
    ProjectStructure::Native
}

// ---------------------------------------------------------------------------
// Domains
// ---------------------------------------------------------------------------

/// The headers of the interfaces.
pub open spec fn header_paths(interfaces: Seq<HalInterfaceView>) -> Seq<Seq<char>> {
    Seq::new(interfaces.len(), |i: int| interfaces[i].header_path)
}

/// The files and the shared groups among the first `n` units.
pub open spec fn shared_units_upto(files: Seq<Seq<char>>, units: Seq<SourceUnitView>, n: int) -> Seq<
    Seq<char>,
>
    decreases n,
{
    if n <= 0 {
        files
    } else {
        let done = shared_units_upto(files, units, n - 1);
        if units[n - 1].role == SourceRole::Shared && !done.contains(units[n - 1].path) {
            done.push(units[n - 1].path)
        } else {
            done
        }
    }
}

/// The files and the shared groups of the first `n` targets.
pub open spec fn common_files_upto(
    files: Seq<Seq<char>>,
    targets: Seq<BuildTargetView>,
    n: int,
) -> Seq<Seq<char>>
    decreases n,
{
    if n <= 0 {
        files
    } else {
        shared_units_upto(
            common_files_upto(files, targets, n - 1),
            targets[n - 1].source_units,
            targets[n - 1].source_units.len() as int,
        )
    }
}

/// The slice that all platforms share: contracts and toolkit, without any
/// dependency; none where it would be empty.
pub open spec fn common_domain(
    interfaces: Seq<HalInterfaceView>,
    targets: Seq<BuildTargetView>,
) -> Seq<ProjectDomainView> {
    let contracts = header_paths(interfaces);
    let files = common_files_upto(contracts, targets, targets.len() as int);
    if files.len() > 0 || contracts.len() > 0 {
        seq![
            ProjectDomainView {
                id: "common"@,
                name: "Common"@,
                kind: "common"@,
                files,
                dependencies: Seq::empty(),
                build_spec: None,
                editability: DomainEditability::Shared,
                contracts,
            },
        ]
    } else {
        Seq::empty()
    }
}

fn list_header_paths(interfaces: &Vec<HalInterface>) -> (r: Vec<String>)
    ensures
        r.deep_view() == header_paths(interfaces.deep_view()),
{
    let ghost all = interfaces.deep_view();
    let ghost one = |i: int| all[i].header_path;
    let mut out: Vec<String> = Vec::new();
    assert(out.deep_view() =~= Seq::new(0, one));
    let mut i: usize = 0;
    while i < interfaces.len()
        invariant
            i <= interfaces@.len(),
            all == interfaces.deep_view(),
            one == (|i: int| all[i].header_path),
            out.deep_view() == Seq::new(i as nat, one),
        decreases interfaces@.len() - i,
    {
        add_item(&mut out, interfaces[i].header_path.clone());
        assert(out.deep_view() =~= Seq::new((i + 1) as nat, one));
        i = i + 1;
    }
    assert(out.deep_view() =~= header_paths(all));
    out
}

fn add_shared_units(files: &mut Vec<String>, units: &Vec<SourceUnit>)
    ensures
        final(files).deep_view() == shared_units_upto(
            old(files).deep_view(),
            units.deep_view(),
            units.deep_view().len() as int,
        ),
{
    let ghost start = files.deep_view();
    let ghost all = units.deep_view();
    let mut i: usize = 0;
    while i < units.len()
        invariant
            i <= units@.len(),
            all == units.deep_view(),
            files.deep_view() == shared_units_upto(start, all, i as int),
        decreases units@.len() - i,
    {
        assert(all[i as int] == units[i as int].deep_view());
        if units[i].role == SourceRole::Shared && !list_has(files, units[i].path.as_str()) {
            add_item(files, units[i].path.clone());
        }
        i = i + 1;
    }
}

fn add_common_domain(
    interfaces: &Vec<HalInterface>,
    targets: &Vec<BuildTarget>,
    domains: &mut Vec<ProjectDomain>,
)
    ensures
        final(domains).deep_view() == old(domains).deep_view() + common_domain(
            interfaces.deep_view(),
            targets.deep_view(),
        ),
{
    let ghost start = domains.deep_view();
    let ghost all = targets.deep_view();
    let contracts = list_header_paths(interfaces);
    let ghost heads = contracts.deep_view();
    let mut files = copy_texts(&contracts);
    let mut i: usize = 0;
    while i < targets.len()
        invariant
            i <= targets@.len(),
            all == targets.deep_view(),
            files.deep_view() == common_files_upto(heads, all, i as int),
        decreases targets@.len() - i,
    {
        assert(all[i as int] == targets[i as int].deep_view());
        add_shared_units(&mut files, &targets[i].source_units);
        i = i + 1;
    }
    if files.len() > 0 || contracts.len() > 0 {
        let d = ProjectDomain {
            id: "common".to_owned(),
            name: "Common".to_owned(),
            kind: "common".to_owned(),
            files,
            dependencies: Vec::new(),
            build_spec: None,
            editability: DomainEditability::Shared,
            contracts,
        };
        assert(d.dependencies.deep_view() =~= Seq::empty());
        add_item(domains, d);
    }
    assert(domains.deep_view() =~= start + common_domain(interfaces.deep_view(), all));
}

/// The directory of a group of a platform's sources; shared ones have none here.
pub open spec fn unit_dir(unit: SourceUnitView, platform: Seq<char>) -> Option<Seq<char>> {
    match unit.role {
        SourceRole::App => Some(platform),
        SourceRole::HalImplementation => Some("hal/implementations/"@ + platform),
        SourceRole::Shared => None,
    }
}

/// The directories of the first `n` groups of a platform's sources, each once.
pub open spec fn unit_dirs_upto(units: Seq<SourceUnitView>, platform: Seq<char>, n: int) -> Seq<
    Seq<char>,
>
    decreases n,
{
    if n <= 0 {
        Seq::empty()
    } else {
        let done = unit_dirs_upto(units, platform, n - 1);
        match unit_dir(units[n - 1], platform) {
            Some(dir) => if done.contains(dir) {
                done
            } else {
                done.push(dir)
            },
            None => done,
        }
    }
}

/// The directories of a platform: those of its sources, and that of its
/// implementations in any case.
pub open spec fn platform_files(t: BuildTargetView) -> Seq<Seq<char>> {
    let dirs = unit_dirs_upto(t.source_units, t.platform, t.source_units.len() as int);
    let home = "hal/implementations/"@ + t.platform;
    if dirs.contains(home) {
        dirs
    } else {
        dirs.push(home)
    }
}

/// The dependencies among the first `n` that are not shared.
pub open spec fn own_dependencies_upto(deps: Seq<DependencyView>, n: int) -> Seq<DependencyView>
    decreases n,
{
    if n <= 0 {
        Seq::empty()
    } else {
        let done = own_dependencies_upto(deps, n - 1);
        if deps[n - 1].scope == Some("shared"@) {
            done
        } else {
            done.push(deps[n - 1])
        }
    }
}

/// The slice of a target's platform.
pub open spec fn platform_domain(t: BuildTargetView) -> ProjectDomainView {
    ProjectDomainView {
        id: t.platform,
        name: t.platform,
        kind: "platform"@,
        files: platform_files(t),
        dependencies: own_dependencies_upto(t.dependencies, t.dependencies.len() as int),
        build_spec: t.build_spec,
        editability: DomainEditability::Fillable,
        contracts: Seq::empty(),
    }
}

/// The slices of the first `n` targets for other platforms than the host.
pub open spec fn platform_domains_upto(targets: Seq<BuildTargetView>, n: int) -> Seq<ProjectDomainView>
    decreases n,
{
    if n <= 0 {
        Seq::empty()
    } else {
        let done = platform_domains_upto(targets, n - 1);
        if targets[n - 1].platform == "host"@ {
            done
        } else {
            done.push(platform_domain(targets[n - 1]))
        }
    }
}

/// The slices of a project; one for the host alone has none.
pub open spec fn domains_of(
    structure: ProjectStructure,
    interfaces: Seq<HalInterfaceView>,
    targets: Seq<BuildTargetView>,
) -> Seq<ProjectDomainView> {
    if structure == ProjectStructure::Native {
        Seq::empty()
    } else {
        common_domain(interfaces, targets) + platform_domains_upto(targets, targets.len() as int)
    }
}

fn list_platform_files(t: &BuildTarget) -> (r: Vec<String>)
    ensures
        r.deep_view() == platform_files(t.deep_view()),
{
    let ghost all = t.source_units.deep_view();
    let platform = t.platform.as_str();
    let mut home = "hal/implementations/".to_owned();
    home.append(platform);
    let mut out: Vec<String> = Vec::new();
    assert(out.deep_view() =~= Seq::empty());
    let mut i: usize = 0;
    while i < t.source_units.len()
        invariant
            i <= t.source_units@.len(),
            all == t.source_units.deep_view(),
            platform@ == t.platform@,
            home@ == "hal/implementations/"@ + platform@,
            out.deep_view() == unit_dirs_upto(all, platform@, i as int),
        decreases t.source_units@.len() - i,
    {
        assert(all[i as int] == t.source_units[i as int].deep_view());
        let dir = match t.source_units[i].role {
            SourceRole::App => Some(platform.to_owned()),
            SourceRole::HalImplementation => Some(home.clone()),
            SourceRole::Shared => None,
        };
        if let Some(dir) = dir {
            if !list_has(&out, dir.as_str()) {
                add_item(&mut out, dir);
            }
        }
        i = i + 1;
    }
    if !list_has(&out, home.as_str()) {
        add_item(&mut out, home);
    }
    out
}

fn own_dependencies(deps: &Vec<Dependency>) -> (r: Vec<Dependency>)
    ensures
        r.deep_view() == own_dependencies_upto(deps.deep_view(), deps.deep_view().len() as int),
{
    let ghost all = deps.deep_view();
    let mut out: Vec<Dependency> = Vec::new();
    assert(out.deep_view() =~= Seq::empty());
    let mut i: usize = 0;
    while i < deps.len()
        invariant
            i <= deps@.len(),
            all == deps.deep_view(),
            out.deep_view() == own_dependencies_upto(all, i as int),
        decreases deps@.len() - i,
    {
        assert(all[i as int] == deps[i as int].deep_view());
        let shared = match &deps[i].scope {
            Some(s) => same(s.as_str(), "shared"),
            None => false,
        };
        if !shared {
            add_item(&mut out, deps[i].clone());
        }
        i = i + 1;
    }
    out
}

fn find_domains(
    structure: ProjectStructure,
    interfaces: &Vec<HalInterface>,
    targets: &Vec<BuildTarget>,
) -> (r: Vec<ProjectDomain>)
    ensures
        r.deep_view() == domains_of(structure, interfaces.deep_view(), targets.deep_view()),
{
    let ghost all = targets.deep_view();
    let mut out: Vec<ProjectDomain> = Vec::new();
    assert(out.deep_view() =~= Seq::empty());
    if structure == ProjectStructure::Native {
        return out;
    }
    add_common_domain(interfaces, targets, &mut out);
    let ghost first = out.deep_view();
    assert(first =~= common_domain(interfaces.deep_view(), all));
    let mut i: usize = 0;
    assert(out.deep_view() =~= first + platform_domains_upto(all, 0));
    while i < targets.len()
        invariant
            i <= targets@.len(),
            all == targets.deep_view(),
            out.deep_view() == first + platform_domains_upto(all, i as int),
        decreases targets@.len() - i,
    {
        let t = &targets[i];
        assert(all[i as int] == t.deep_view());
        if !same(t.platform.as_str(), "host") {
            let d = ProjectDomain {
                id: t.platform.clone(),
                name: t.platform.clone(),
                kind: "platform".to_owned(),
                files: list_platform_files(t),
                dependencies: own_dependencies(&t.dependencies),
                build_spec: match &t.build_spec {
                    Some(s) => Some(s.clone()),
                    None => None,
                },
                editability: DomainEditability::Fillable,
                contracts: Vec::new(),
            };
            assert(d.contracts.deep_view() =~= Seq::empty());
            assert(d.deep_view() =~= platform_domain(all[i as int]));
            add_item(&mut out, d);
        }
        assert(out.deep_view() =~= first + platform_domains_upto(all, i + 1));
        i = i + 1;
    }
    out
}

// ---------------------------------------------------------------------------
// Analysis
// ---------------------------------------------------------------------------

/// The version that the `project(...)` call states.
pub open spec fn project_version(content: Seq<char>) -> Option<Seq<char>> {
    match first_call("\\bproject\\s*\\("@, content) {
        Some(call) => first_group("version\\s*:\\s*['\"]([^'\"]+)['\"]"@, call, 1),
        None => None,
    }
}

fn find_project_version(content: &str) -> (r: Option<String>)
    ensures
        r.deep_view() == project_version(content@),
{
    match find_call("\\bproject\\s*\\(", content) {
        Some(call) => first_match("version\\s*:\\s*['\"]([^'\"]+)['\"]", call.as_str(), 1),
        None => None,
    }
}

/// What analysis finds in a Meson project with the given top build file.
pub open spec fn meson_metadata(t: ProjectTreeView, build_file: Seq<char>) -> BuildMetadataView {
    let content = without_comments(build_file);
    let (text, parts) = gathered(t, content);
    let found = targets_in(text, parts);
    let platforms = platform_values(content_at(t, "meson_options.txt"@));
    let (interfaces, issues) = hal_findings(t, found);
    let targets = scoped(found);
    let structure = shape_of(interfaces.len(), platforms);
    BuildMetadataView {
        project_name: first_group("project\\s*\\(\\s*['\"]([^'\"]+)['\"]"@, content, 1),
        description: None,
        version: project_version(content),
        project_type: "Meson_project"@,
        build_system: "Meson"@,
        is_workspace: false,
        workspace_members: Seq::empty(),
        scripts: Seq::empty(),
        dependencies: bare_dependencies(distinct(captured("(?:dependency|find_library)\\s*\\(\\s*['\"]([^'\"]+)['\"]"@, text))),
        targets,
        config_files: seq!["meson.build"@],
        project_path: Some(t.root),
        platform_targets: platforms,
        structure,
        domains: domains_of(structure, interfaces, targets),
        hal_interfaces: interfaces,
        issues,
        raw: None,
    }
}

/// What analysis finds in a Meson project with the given top build file.
pub fn read_meson_project(tree: &ProjectTree, build_file: &str) -> (r: BuildMetadata)
    ensures
        r.deep_view() == meson_metadata(tree.deep_view(), build_file@),
{
    let none = String::new();
    assert(none@ =~= Seq::empty());
    let content = replace_matches("(?m)#.*$", build_file, none.as_str());
    let (text, parts) = gather(tree, content.as_str());
    let found = find_targets(text.as_str(), &parts);
    let platforms = find_platform_values(&tree.read("meson_options.txt"));
    let (interfaces, issues) = detect_hal_interfaces(tree, &found);
    let targets = scope_targets(&found);
    let structure = find_shape(interfaces.len(), &platforms);
    let names = without_repeats(&capture_texts("(?:dependency|find_library)\\s*\\(\\s*['\"]([^'\"]+)['\"]", text.as_str()));
    let domains = find_domains(structure, &interfaces, &targets);
    let mut m = BuildMetadata::default();
    m.project_name = first_match("project\\s*\\(\\s*['\"]([^'\"]+)['\"]", content.as_str(), 1);
    m.version = find_project_version(content.as_str());
    m.project_type = "Meson_project".to_owned();
    m.build_system = "Meson".to_owned();
    m.dependencies = make_dependencies(&names);
    m.targets = targets;
    m.config_files = vec!["meson.build".to_owned()];
    m.project_path = Some(tree.root.clone());
    m.platform_targets = platforms;
    m.structure = structure;
    m.domains = domains;
    m.hal_interfaces = interfaces;
    m.issues = issues;
    assert(m.config_files.deep_view() =~= seq!["meson.build"@]);
    assert(m.deep_view() =~= meson_metadata(tree.deep_view(), build_file@));
    m
}

} // verus!
