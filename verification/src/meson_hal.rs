//! The HAL contracts of a Meson project and which platforms implement them.

use vstd::prelude::*;

use crate::contract::{flat_methods, flatten_methods, method_names, names_of_methods};
use crate::cpp::{
    base_classes, classify_hal_header, contract_classes, definitions, extract_contract_methods_cpp,
    extract_cpp_base_classes, extract_cpp_method_definitions_ts, has_base, header_kind, inline_definitions,
    list_inline_definitions, names_base, HalHeaderKind, HalImplMethod, HalImplMethodView,
};
use crate::graph::{contract_names, list_contract_names};
use crate::project::{
    content_at, dir_at, file_stem, has_extension, join_path, names_in, path_join, stem_of,
    with_extension, ProjectTree, ProjectTreeView,
};
use crate::rust_contract::{absent, list_absent};
use crate::table::{find_key, key_from, put, put_new, value_at, with_new, with_value};
use crate::text::{
    add_item, append_texts, begins, decimal, distinct, ends, ends_with, join, joined, list_has, number_text, same,
    starts_with, without_repeats,
};
use crate::types::{
    BuildIssue, BuildIssueView, BuildTarget, BuildTargetView, HalInterface, HalInterfaceView,
};

verus! {

fn new_issue(kind: &str, message: String) -> (r: BuildIssue)
    ensures
        r.deep_view() == (BuildIssueView { severity: "warning"@, kind: kind@, message: message@ }),
{
    BuildIssue { severity: "warning".to_owned(), kind: kind.to_owned(), message }
}

/// The directory of a platform's implementations: the canonical one where it is
/// there, else the legacy one.
pub open spec fn impl_home(t: ProjectTreeView, plat: Seq<char>) -> Seq<char> {
    let canonical = path_join("hal/implementations"@, plat);
    if dir_at(t, canonical) {
        canonical
    } else {
        path_join(plat, "hal"@)
    }
}

/// The directory of a platform's implementations.
pub fn dir_for(plat: &str, tree: &ProjectTree) -> (r: String)
    ensures
        r@ == impl_home(tree.deep_view(), plat@),
{
    let canonical = join_path("hal/implementations", plat);
    if tree.is_dir(canonical.as_str()) {
        canonical
    } else {
        join_path(plat, "hal")
    }
}

/// The implementation directories among the first `n` names below
/// `hal/implementations`.
pub open spec fn homes_upto(t: ProjectTreeView, names: Seq<Seq<char>>, n: int) -> Seq<
    (Seq<char>, Seq<char>),
>
    decreases n,
{
    if n <= 0 {
        Seq::empty()
    } else {
        let done = homes_upto(t, names, n - 1);
        let path = path_join("hal/implementations"@, names[n - 1]);
        if dir_at(t, path) {
            with_value(done, names[n - 1], path)
        } else {
            done
        }
    }
}

/// The table with the legacy directories of the first `n` targets' platforms.
pub open spec fn target_homes_upto(
    t: ProjectTreeView,
    first: Seq<(Seq<char>, Seq<char>)>,
    targets: Seq<BuildTargetView>,
    n: int,
) -> Seq<(Seq<char>, Seq<char>)>
    decreases n,
{
    if n <= 0 {
        first
    } else {
        let done = target_homes_upto(t, first, targets, n - 1);
        let path = path_join(targets[n - 1].platform, "hal"@);
        if dir_at(t, path) {
            with_new(done, targets[n - 1].platform, path)
        } else {
            done
        }
    }
}

/// The implementation directories by platform.
pub open spec fn impl_homes(t: ProjectTreeView, targets: Seq<BuildTargetView>) -> Seq<
    (Seq<char>, Seq<char>),
> {
    let names = names_in(t, "hal/implementations"@);
    let first = if dir_at(t, "hal/implementations"@) {
        homes_upto(t, names, names.len() as int)
    } else {
        Seq::empty()
    };
    target_homes_upto(t, first, targets, targets.len() as int)
}

fn list_homes(tree: &ProjectTree, targets: &Vec<BuildTarget>) -> (r: Vec<(String, String)>)
    ensures
        r.deep_view() == impl_homes(tree.deep_view(), targets.deep_view()),
{
    let ghost t = tree.deep_view();
    let ghost all = targets.deep_view();
    let mut table: Vec<(String, String)> = Vec::new();
    assert(table.deep_view() =~= Seq::empty());
    if tree.is_dir("hal/implementations") {
        let names = tree.list("hal/implementations");
        let mut i: usize = 0;
        while i < names.len()
            invariant
                i <= names@.len(),
                t == tree.deep_view(),
                table.deep_view() == homes_upto(t, names.deep_view(), i as int),
            decreases names@.len() - i,
        {
            let path = join_path("hal/implementations", names[i].as_str());
            if tree.is_dir(path.as_str()) {
                put(&mut table, names[i].clone(), path);
            }
            i = i + 1;
        }
    }
    let ghost first = table.deep_view();
    let mut i: usize = 0;
    while i < targets.len()
        invariant
            i <= targets@.len(),
            t == tree.deep_view(),
            all == targets.deep_view(),
            table.deep_view() == target_homes_upto(t, first, all, i as int),
        decreases targets@.len() - i,
    {
        assert(all[i as int] == targets[i as int].deep_view());
        let path = join_path(targets[i].platform.as_str(), "hal");
        if tree.is_dir(path.as_str()) {
            put_new(&mut table, targets[i].platform.clone(), path);
        }
        i = i + 1;
    }
    table
}

/// The table of contract headers with those among the first `n` names of a
/// directory, by stem.
pub open spec fn headers_upto(
    t: ProjectTreeView,
    dir: Seq<char>,
    names: Seq<Seq<char>>,
    first: Seq<(Seq<char>, Seq<char>)>,
    n: int,
) -> Seq<(Seq<char>, Seq<char>)>
    decreases n,
{
    if n <= 0 {
        first
    } else {
        let done = headers_upto(t, dir, names, first, n - 1);
        let name = names[n - 1];
        let path = path_join(dir, name);
        if (has_extension(name, "hpp"@) || has_extension(name, "h"@)) && header_kind(
            content_at(t, path),
        ) == HalHeaderKind::Contract {
            with_new(done, stem_of(name), path)
        } else {
            done
        }
    }
}

/// The table of contract headers with those of a directory.
pub open spec fn with_headers(
    t: ProjectTreeView,
    dir: Seq<char>,
    first: Seq<(Seq<char>, Seq<char>)>,
) -> Seq<(Seq<char>, Seq<char>)> {
    if dir_at(t, dir) {
        headers_upto(t, dir, names_in(t, dir), first, names_in(t, dir).len() as int)
    } else {
        first
    }
}

/// The contract headers of a project by stem; the canonical directory goes
/// before the legacy one.
pub open spec fn contract_headers(t: ProjectTreeView) -> Seq<(Seq<char>, Seq<char>)> {
    with_headers(t, "toolkit/src/hal/api"@, with_headers(t, "hal/api"@, Seq::empty()))
}

fn add_headers(tree: &ProjectTree, dir: &str, table: &mut Vec<(String, String)>)
    ensures
        final(table).deep_view() == with_headers(tree.deep_view(), dir@, old(table).deep_view()),
{
    let ghost t = tree.deep_view();
    let ghost first = table.deep_view();
    if !tree.is_dir(dir) {
        return ;
    }
    let names = tree.list(dir);
    let mut i: usize = 0;
    while i < names.len()
        invariant
            i <= names@.len(),
            t == tree.deep_view(),
            table.deep_view() == headers_upto(t, dir@, names.deep_view(), first, i as int),
        decreases names@.len() - i,
    {
        let name = names[i].as_str();
        let path = join_path(dir, name);
        if with_extension(name, "hpp") || with_extension(name, "h") {
            if classify_hal_header(&tree.read(path.as_str())) == HalHeaderKind::Contract {
                put_new(table, file_stem(name).to_owned(), path);
            }
        }
        i = i + 1;
    }
}

/// The methods of a contract header, each once; none where it cannot be read.
pub open spec fn required_methods(content: Option<Seq<char>>) -> Seq<Seq<char>> {
    match content {
        Some(c) => distinct(
            method_names(flat_methods(contract_classes(c), contract_classes(c).len() as int)),
        ),
        None => Seq::empty(),
    }
}

fn list_required(content: &Option<String>) -> (r: Vec<String>)
    ensures
        r.deep_view() == required_methods(content.deep_view()),
{
    match content {
        Some(c) => {
            let classes = extract_contract_methods_cpp(c.as_str());
            without_repeats(&names_of_methods(&flatten_methods(&classes)))
        },
        None => {
            let none: Vec<String> = Vec::new();
            assert(none.deep_view() =~= Seq::empty());
            none
        },
    }
}

/// What is sought in implementations of a contract: the stem of its header, the
/// names of its classes, and its methods.
pub struct Interface {
    pub stem: String,
    pub classes: Vec<String>,
    pub required: Vec<String>,
}

/// What an [`Interface`] holds.
#[verifier::ext_equal]
pub struct InterfaceView {
    pub stem: Seq<char>,
    pub classes: Seq<Seq<char>>,
    pub required: Seq<Seq<char>>,
}

impl DeepView for Interface {
    type V = InterfaceView;

    open spec fn deep_view(&self) -> InterfaceView {
        InterfaceView {
            stem: self.stem@,
            classes: self.classes.deep_view(),
            required: self.required.deep_view(),
        }
    }
}

/// The interface that a contract header states.
pub open spec fn interface_of(t: ProjectTreeView, header: (Seq<char>, Seq<char>)) -> InterfaceView {
    InterfaceView {
        stem: header.0,
        classes: match content_at(t, header.1) {
            Some(c) => contract_names(c),
            None => Seq::empty(),
        },
        required: required_methods(content_at(t, header.1)),
    }
}

/// The interfaces of the contract headers.
pub open spec fn interfaces_of(t: ProjectTreeView, headers: Seq<(Seq<char>, Seq<char>)>) -> Seq<InterfaceView> {
    Seq::new(headers.len(), |i: int| interface_of(t, headers[i]))
}

fn read_interface(tree: &ProjectTree, stem: &str, path: &str) -> (r: Interface)
    ensures
        r.deep_view() == interface_of(tree.deep_view(), (stem@, path@)),
{
    let content = tree.read(path);
    let required = list_required(&content);
    let mut classes: Vec<String> = Vec::new();
    assert(classes.deep_view() =~= Seq::empty());
    if let Some(c) = &content {
        classes = list_contract_names(c.as_str());
    }
    Interface { stem: stem.to_owned(), classes, required }
}

/// Some class derives one of the bases.
pub open spec fn derives_any(classes: Seq<(Seq<char>, Seq<Seq<char>>)>, bases: Seq<Seq<char>>) -> bool {
    exists|i: int| 0 <= i < bases.len() && has_base(classes, #[trigger] bases[i])
}

fn derives_one(classes: &Vec<(String, Vec<String>)>, bases: &Vec<String>) -> (r: bool)
    ensures
        r == derives_any(classes.deep_view(), bases.deep_view()),
{
    let ghost all = bases.deep_view();
    let mut i: usize = 0;
    while i < bases.len()
        invariant
            i <= bases@.len(),
            all == bases.deep_view(),
            forall|j: int| 0 <= j < i ==> !has_base(classes.deep_view(), #[trigger] all[j]),
        decreases bases@.len() - i,
    {
        if names_base(classes, bases[i].as_str()) {
            assert(has_base(classes.deep_view(), all[i as int]));
            return true;
        }
        i = i + 1;
    }
    false
}

/// The names of defined methods.
pub open spec fn defined_names(methods: Seq<HalImplMethodView>) -> Seq<Seq<char>> {
    Seq::new(methods.len(), |i: int| methods[i].name)
}

fn list_defined(methods: &Vec<HalImplMethod>) -> (r: Vec<String>)
    ensures
        r.deep_view() == defined_names(methods.deep_view()),
{
    let ghost all = methods.deep_view();
    let ghost one = |i: int| all[i].name;
    let mut out: Vec<String> = Vec::new();
    assert(out.deep_view() =~= Seq::new(0, one));
    let mut i: usize = 0;
    while i < methods.len()
        invariant
            i <= methods@.len(),
            all == methods.deep_view(),
            one == (|i: int| all[i].name),
            out.deep_view() == Seq::new(i as nat, one),
        decreases methods@.len() - i,
    {
        add_item(&mut out, methods[i].name.clone());
        assert(out.deep_view() =~= Seq::new((i + 1) as nat, one));
        i = i + 1;
    }
    assert(out.deep_view() =~= defined_names(all));
    out
}

/// Some of the names is among the others.
pub open spec fn overlap(a: Seq<Seq<char>>, b: Seq<Seq<char>>) -> bool {
    exists|i: int| 0 <= i < a.len() && b.contains(#[trigger] a[i])
}

fn overlaps(a: &Vec<String>, b: &Vec<String>) -> (r: bool)
    ensures
        r == overlap(a.deep_view(), b.deep_view()),
{
    let ghost x = a.deep_view();
    let ghost y = b.deep_view();
    let mut i: usize = 0;
    while i < a.len()
        invariant
            i <= a@.len(),
            x == a.deep_view(),
            y == b.deep_view(),
            forall|j: int| 0 <= j < i ==> !y.contains(#[trigger] x[j]),
        decreases a@.len() - i,
    {
        if list_has(b, a[i].as_str()) {
            assert(y.contains(x[i as int]));
            return true;
        }
        i = i + 1;
    }
    false
}

/// A text implements a contract: it derives a class from one of the contract's, or
/// defines one of its methods, in a class or outside of it.
pub open spec fn text_implements(content: Option<Seq<char>>, face: InterfaceView) -> bool {
    content matches Some(c) && (derives_any(base_classes(c), face.classes) || overlap(
        face.required,
        defined_names(definitions(c)),
    ) || overlap(face.required, inline_definitions(c)))
}

/// A file implements a contract: by its text, or by its name.
pub open spec fn file_implements(
    t: ProjectTreeView,
    dir: Seq<char>,
    name: Seq<char>,
    face: InterfaceView,
) -> bool {
    text_implements(content_at(t, path_join(dir, name)), face) || begins(
        name,
        face.stem + "."@,
    ) || begins(name, face.stem + "_"@)
}

fn is_implementation(tree: &ProjectTree, dir: &str, name: &str, face: &Interface) -> (r: bool)
    ensures
        r == file_implements(tree.deep_view(), dir@, name@, face.deep_view()),
{
    if let Some(c) = tree.read(join_path(dir, name).as_str()) {
        if derives_one(&extract_cpp_base_classes(c.as_str()), &face.classes) {
            return true;
        }
        let defined = list_defined(&extract_cpp_method_definitions_ts(c.as_str()));
        if overlaps(&face.required, &defined) || overlaps(
            &face.required,
            &list_inline_definitions(c.as_str()),
        ) {
            return true;
        }
    }
    let mut dotted = face.stem.clone();
    dotted.append(".");
    let mut scored = face.stem.clone();
    scored.append("_");
    starts_with(name, dotted.as_str()) || starts_with(name, scored.as_str())
}

/// The file may hold an implementation; headers count only where they may.
pub open spec fn is_candidate(name: Seq<char>, headers: bool) -> bool {
    ||| has_extension(name, "cpp"@)
    ||| has_extension(name, "cxx"@)
    ||| has_extension(name, "cc"@)
    ||| has_extension(name, "c"@)
    ||| headers && (has_extension(name, "hpp"@) || has_extension(name, "h"@))
}

/// The implementations of a contract among the first `n` names of a directory.
pub open spec fn matched_upto(
    t: ProjectTreeView,
    dir: Seq<char>,
    headers: bool,
    face: InterfaceView,
    names: Seq<Seq<char>>,
    n: int,
) -> Seq<Seq<char>>
    decreases n,
{
    if n <= 0 {
        Seq::empty()
    } else {
        let done = matched_upto(t, dir, headers, face, names, n - 1);
        if is_candidate(names[n - 1], headers) && file_implements(
            t,
            dir,
            names[n - 1],
            face,
        ) {
            done.push(names[n - 1])
        } else {
            done
        }
    }
}

/// The implementations of a contract in a directory.
pub open spec fn matched_in(
    t: ProjectTreeView,
    dir: Seq<char>,
    headers: bool,
    face: InterfaceView,
) -> Seq<Seq<char>> {
    let names = names_in(t, dir);
    matched_upto(t, dir, headers, face, names, names.len() as int)
}

/// The files of a platform that implement a contract: in its directory, and in
/// the legacy one where that is another.
pub open spec fn platform_matches(
    t: ProjectTreeView,
    plat: Seq<char>,
    dir: Seq<char>,
    face: InterfaceView,
) -> Seq<Seq<char>> {
    let legacy = path_join(plat, "hal"@);
    matched_in(t, dir, true, face) + (if dir_at(t, legacy) && legacy != dir {
        matched_in(t, legacy, false, face)
    } else {
        Seq::empty()
    })
}

fn add_matches(
    tree: &ProjectTree,
    dir: &str,
    headers: bool,
    face: &Interface,
    out: &mut Vec<String>,
)
    ensures
        final(out).deep_view() == old(out).deep_view() + matched_in(
            tree.deep_view(),
            dir@,
            headers,
            face.deep_view(),
        ),
{
    let ghost t = tree.deep_view();
    let ghost start = out.deep_view();
    let ghost want = face.deep_view();
    let names = tree.list(dir);
    let ghost all = names.deep_view();
    let mut i: usize = 0;
    assert(out.deep_view() =~= start + matched_upto(t, dir@, headers, want, all, 0));
    while i < names.len()
        invariant
            i <= names@.len(),
            t == tree.deep_view(),
            want == face.deep_view(),
            all == names.deep_view(),
            out.deep_view() == start + matched_upto(
                t,
                dir@,
                headers,
                want,
                all,
                i as int,
            ),
        decreases names@.len() - i,
    {
        let name = names[i].as_str();
        let candidate = with_extension(name, "cpp") || with_extension(name, "cxx") || with_extension(
            name,
            "cc",
        ) || with_extension(name, "c") || (headers && (with_extension(name, "hpp")
            || with_extension(name, "h")));
        if candidate && is_implementation(tree, dir, name, face) {
            add_item(out, names[i].clone());
        }
        assert(out.deep_view() =~= start + matched_upto(t, dir@, headers, want, all, i + 1));
        i = i + 1;
    }
}

/// The platforms among the first `n` that implement a contract, each with the
/// files.
pub open spec fn implementers_upto(
    t: ProjectTreeView,
    homes: Seq<(Seq<char>, Seq<char>)>,
    face: InterfaceView,
    n: int,
) -> Seq<(Seq<char>, Seq<Seq<char>>)>
    decreases n,
{
    if n <= 0 {
        Seq::empty()
    } else {
        let done = implementers_upto(t, homes, face, n - 1);
        let files = platform_matches(t, homes[n - 1].0, homes[n - 1].1, face);
        if files.len() > 0 {
            done.push((homes[n - 1].0, files))
        } else {
            done
        }
    }
}

fn list_implementers(
    tree: &ProjectTree,
    homes: &Vec<(String, String)>,
    face: &Interface,
) -> (r: Vec<(String, Vec<String>)>)
    ensures
        r.deep_view() == implementers_upto(
            tree.deep_view(),
            homes.deep_view(),
            face.deep_view(),
            homes.deep_view().len() as int,
        ),
{
    let ghost t = tree.deep_view();
    let ghost all = homes.deep_view();
    let ghost want = face.deep_view();
    let mut out: Vec<(String, Vec<String>)> = Vec::new();
    assert(out.deep_view() =~= Seq::empty());
    let mut i: usize = 0;
    while i < homes.len()
        invariant
            i <= homes@.len(),
            t == tree.deep_view(),
            all == homes.deep_view(),
            want == face.deep_view(),
            out.deep_view() == implementers_upto(t, all, want, i as int),
        decreases homes@.len() - i,
    {
        assert(all[i as int] == (homes[i as int].0@, homes[i as int].1@));
        let plat = homes[i].0.as_str();
        let dir = homes[i].1.as_str();
        let mut files: Vec<String> = Vec::new();
        assert(files.deep_view() =~= Seq::empty());
        add_matches(tree, dir, true, face, &mut files);
        assert(files.deep_view() =~= matched_in(t, dir@, true, want));
        let legacy = join_path(plat, "hal");
        if tree.is_dir(legacy.as_str()) && !same(legacy.as_str(), dir) {
            add_matches(tree, legacy.as_str(), false, face, &mut files);
        }
        assert(files.deep_view() =~= platform_matches(t, plat@, dir@, want));
        if files.len() > 0 {
            add_item(&mut out, (homes[i].0.clone(), files));
        }
        i = i + 1;
    }
    out
}

/// The methods that the first `n` files of a platform define.
pub open spec fn defined_upto(t: ProjectTreeView, home: Seq<char>, files: Seq<Seq<char>>, n: int) -> Seq<
    Seq<char>,
>
    decreases n,
{
    if n <= 0 {
        Seq::empty()
    } else {
        let done = defined_upto(t, home, files, n - 1);
        match content_at(t, path_join(home, files[n - 1])) {
            Some(c) => done + defined_names(definitions(c)),
            None => done,
        }
    }
}

/// The methods that the implementations of a contract in a directory define.
pub open spec fn defined_in(t: ProjectTreeView, dir: Seq<char>, headers: bool, face: InterfaceView) -> Seq<
    Seq<char>,
> {
    let files = matched_in(t, dir, headers, face);
    defined_upto(t, dir, files, files.len() as int)
}

/// The directory that is known for a platform's implementations.
pub open spec fn home_of(t: ProjectTreeView, homes: Seq<(Seq<char>, Seq<char>)>, plat: Seq<char>) -> Seq<char> {
    match value_at(homes, plat) {
        Some(dir) => dir,
        None => impl_home(t, plat),
    }
}

/// The methods of a contract that a platform's files leave out, wherever they stand.
pub open spec fn left_out(t: ProjectTreeView, plat: Seq<char>, dir: Seq<char>, face: InterfaceView) -> Seq<
    Seq<char>,
> {
    let legacy = path_join(plat, "hal"@);
    absent(
        face.required,
        defined_in(t, dir, true, face) + (if dir_at(t, legacy) && legacy != dir {
            defined_in(t, legacy, false, face)
        } else {
            Seq::empty()
        }),
    )
}

fn list_defined_in(tree: &ProjectTree, dir: &str, headers: bool, face: &Interface) -> (r: Vec<String>)
    ensures
        r.deep_view() == defined_in(tree.deep_view(), dir@, headers, face.deep_view()),
{
    let ghost t = tree.deep_view();
    let mut files: Vec<String> = Vec::new();
    assert(files.deep_view() =~= Seq::empty());
    add_matches(tree, dir, headers, face, &mut files);
    assert(files.deep_view() =~= matched_in(t, dir@, headers, face.deep_view()));
    let mut defined: Vec<String> = Vec::new();
    assert(defined.deep_view() =~= Seq::empty());
    let mut i: usize = 0;
    while i < files.len()
        invariant
            i <= files@.len(),
            t == tree.deep_view(),
            defined.deep_view() == defined_upto(t, dir@, files.deep_view(), i as int),
        decreases files@.len() - i,
    {
        if let Some(c) = tree.read(join_path(dir, files[i].as_str()).as_str()) {
            let more = list_defined(&extract_cpp_method_definitions_ts(c.as_str()));
            append_texts(&mut defined, &more);
        }
        i = i + 1;
    }
    defined
}

fn list_left_out(tree: &ProjectTree, plat: &str, dir: &str, face: &Interface) -> (r: Vec<String>)
    ensures
        r.deep_view() == left_out(tree.deep_view(), plat@, dir@, face.deep_view()),
{
    let mut defined = list_defined_in(tree, dir, true, face);
    let legacy = join_path(plat, "hal");
    let ghost first = defined.deep_view();
    if tree.is_dir(legacy.as_str()) && !same(legacy.as_str(), dir) {
        append_texts(&mut defined, &list_defined_in(tree, legacy.as_str(), false, face));
    } else {
        assert(first + Seq::<Seq<char>>::empty() =~= first);
    }
    list_absent(&face.required, &defined)
}

/// One issue for each of the first `n` platforms with more than one
/// implementation of a contract.
pub open spec fn duplicates_upto(
    stem: Seq<char>,
    rows: Seq<(Seq<char>, Seq<Seq<char>>)>,
    n: int,
) -> Seq<BuildIssueView>
    decreases n,
{
    if n <= 0 {
        Seq::empty()
    } else {
        let done = duplicates_upto(stem, rows, n - 1);
        if rows[n - 1].1.len() > 1 {
            let plat = rows[n - 1].0;
            let count = decimal(rows[n - 1].1.len() as int);
            let list = joined(rows[n - 1].1, ", "@);
            done.push(
                BuildIssueView {
                    severity: "warning"@,
                    kind: "duplicate_implementation"@,
                    message: "HAL interface "@
                        + stem
                        + " has "@
                        + count
                        + " implementations for "@
                        + plat
                        + ": "@
                        + list,
                },
            )
        } else {
            done
        }
    }
}

fn add_duplicates(stem: &str, rows: &Vec<(String, Vec<String>)>, issues: &mut Vec<BuildIssue>)
    ensures
        final(issues).deep_view() == old(issues).deep_view() + duplicates_upto(
            stem@,
            rows.deep_view(),
            rows.deep_view().len() as int,
        ),
{
    let ghost start = issues.deep_view();
    let ghost all = rows.deep_view();
    let mut i: usize = 0;
    assert(issues.deep_view() =~= start + duplicates_upto(stem@, all, 0));
    while i < rows.len()
        invariant
            i <= rows@.len(),
            all == rows.deep_view(),
            issues.deep_view() == start + duplicates_upto(stem@, all, i as int),
        decreases rows@.len() - i,
    {
        assert(all[i as int] == (rows[i as int].0@, rows[i as int].1.deep_view()));
        if rows[i].1.len() > 1 {
            let plat = rows[i].0.as_str();
            let count = number_text(rows[i].1.len());
            let list = join(&rows[i].1, ", ");
            let mut s = "HAL interface ".to_owned();
            s.append(stem);
            s.append(" has ");
            s.append(count.as_str());
            s.append(" implementations for ");
            s.append(plat);
            s.append(": ");
            s.append(list.as_str());
            add_item(issues, new_issue("duplicate_implementation", s));
        }
        assert(issues.deep_view() =~= start + duplicates_upto(stem@, all, i + 1));
        i = i + 1;
    }
}

/// One issue for each of the first `n` targets for another platform than the
/// host whose implementation of a contract is missing or leaves methods out.
pub open spec fn shortfalls_upto(
    t: ProjectTreeView,
    homes: Seq<(Seq<char>, Seq<char>)>,
    face: InterfaceView,
    rows: Seq<(Seq<char>, Seq<Seq<char>>)>,
    targets: Seq<BuildTargetView>,
    n: int,
) -> Seq<BuildIssueView>
    decreases n,
{
    if n <= 0 {
        Seq::empty()
    } else {
        let done = shortfalls_upto(t, homes, face, rows, targets, n - 1);
        let plat = targets[n - 1].platform;
        if plat == "host"@ {
            done
        } else {
            match key_from(rows, plat, 0) {
                Some(k) => {
                    let missing = left_out(t, plat, home_of(t, homes, plat), face);
                    let list = joined(missing, ", "@);
                    if missing.len() > 0 {
                        done.push(
                            BuildIssueView {
                                severity: "warning"@,
                                kind: "missing_implementation"@,
                                message: "HAL interface "@
                                    + face.stem
                                    + " for platform "@
                                    + plat
                                    + " missing methods: "@
                                    + list,
                            },
                        )
                    } else {
                        done
                    }
                },
                None => done.push(
                    BuildIssueView {
                        severity: "warning"@,
                        kind: "missing_implementation"@,
                        message: "HAL interface "@
                            + face.stem
                            + " has no implementation for platform "@
                            + plat,
                    },
                ),
            }
        }
    }
}

fn add_shortfalls(
    tree: &ProjectTree,
    homes: &Vec<(String, String)>,
    face: &Interface,
    rows: &Vec<(String, Vec<String>)>,
    targets: &Vec<BuildTarget>,
    issues: &mut Vec<BuildIssue>,
)
    ensures
        final(issues).deep_view() == old(issues).deep_view() + shortfalls_upto(
            tree.deep_view(),
            homes.deep_view(),
            face.deep_view(),
            rows.deep_view(),
            targets.deep_view(),
            targets.deep_view().len() as int,
        ),
{
    let ghost t = tree.deep_view();
    let ghost start = issues.deep_view();
    let ghost want = face.deep_view();
    let ghost dirs = homes.deep_view();
    let ghost table = rows.deep_view();
    let ghost all = targets.deep_view();
    let mut i: usize = 0;
    assert(issues.deep_view() =~= start + shortfalls_upto(t, dirs, want, table, all, 0));
    while i < targets.len()
        invariant
            i <= targets@.len(),
            t == tree.deep_view(),
            want == face.deep_view(),
            dirs == homes.deep_view(),
            table == rows.deep_view(),
            all == targets.deep_view(),
            issues.deep_view() == start + shortfalls_upto(t, dirs, want, table, all, i as int),
        decreases targets@.len() - i,
    {
        assert(all[i as int] == targets[i as int].deep_view());
        let plat = targets[i].platform.as_str();
        if !same(plat, "host") {
            match find_key(rows, plat) {
                Some(k) => {
                    assert(table[k as int] == (rows[k as int].0@, rows[k as int].1.deep_view()));
                    let dir = match find_key(homes, plat) {
                        Some(h) => {
                            assert(dirs[h as int] == (homes[h as int].0@, homes[h as int].1@));
                            homes[h].1.clone()
                        },
                        None => dir_for(plat, tree),
                    };
                    let missing = list_left_out(tree, plat, dir.as_str(), face);
                    if missing.len() > 0 {
                        let list = join(&missing, ", ");
                        let mut s = "HAL interface ".to_owned();
                        s.append(face.stem.as_str());
                        s.append(" for platform ");
                        s.append(plat);
                        s.append(" missing methods: ");
                        s.append(list.as_str());
                        add_item(issues, new_issue("missing_implementation", s));
                    }
                },
                None => {
                    let mut s = "HAL interface ".to_owned();
                    s.append(face.stem.as_str());
                    s.append(" has no implementation for platform ");
                    s.append(plat);
                    add_item(issues, new_issue("missing_implementation", s));
                },
            }
        }
        assert(issues.deep_view() =~= start + shortfalls_upto(t, dirs, want, table, all, i + 1));
        i = i + 1;
    }
}

/// The platforms of the rows.
pub open spec fn row_platforms(rows: Seq<(Seq<char>, Seq<Seq<char>>)>) -> Seq<Seq<char>> {
    Seq::new(rows.len(), |i: int| rows[i].0)
}

/// The interface of a contract header and the issues with it.
pub open spec fn interface_findings(
    t: ProjectTreeView,
    homes: Seq<(Seq<char>, Seq<char>)>,
    targets: Seq<BuildTargetView>,
    header: (Seq<char>, Seq<char>),
) -> (HalInterfaceView, Seq<BuildIssueView>) {
    let face = interface_of(t, header);
    let rows = implementers_upto(t, homes, face, homes.len() as int);
    (
        HalInterfaceView {
            name: header.0,
            header_path: header.1,
            implementations: row_platforms(rows),
        },
        duplicates_upto(header.0, rows, rows.len() as int) + shortfalls_upto(
            t,
            homes,
            face,
            rows,
            targets,
            targets.len() as int,
        ),
    )
}

/// The interfaces of the first `n` contract headers and the issues with them.
pub open spec fn findings_upto(
    t: ProjectTreeView,
    homes: Seq<(Seq<char>, Seq<char>)>,
    targets: Seq<BuildTargetView>,
    headers: Seq<(Seq<char>, Seq<char>)>,
    n: int,
) -> (Seq<HalInterfaceView>, Seq<BuildIssueView>)
    decreases n,
{
    if n <= 0 {
        (Seq::empty(), Seq::empty())
    } else {
        let (interfaces, issues) = findings_upto(t, homes, targets, headers, n - 1);
        let (interface, more) = interface_findings(t, homes, targets, headers[n - 1]);
        (interfaces.push(interface), issues + more)
    }
}

/// The file implements one of the contracts.
pub open spec fn has_contract(
    t: ProjectTreeView,
    faces: Seq<InterfaceView>,
    dir: Seq<char>,
    name: Seq<char>,
) -> bool {
    exists|i: int| 0 <= i < faces.len() && file_implements(t, dir, name, #[trigger] faces[i])
}

fn finds_contract(tree: &ProjectTree, faces: &Vec<Interface>, dir: &str, name: &str) -> (r: bool)
    ensures
        r == has_contract(tree.deep_view(), faces.deep_view(), dir@, name@),
{
    let ghost t = tree.deep_view();
    let ghost all = faces.deep_view();
    let mut i: usize = 0;
    while i < faces.len()
        invariant
            i <= faces@.len(),
            t == tree.deep_view(),
            all == faces.deep_view(),
            forall|j: int| 0 <= j < i ==> !file_implements(t, dir@, name@, #[trigger] all[j]),
        decreases faces@.len() - i,
    {
        assert(all[i as int] == faces[i as int].deep_view());
        if is_implementation(tree, dir, name, &faces[i]) {
            assert(file_implements(t, dir@, name@, all[i as int]));
            return true;
        }
        i = i + 1;
    }
    false
}

/// One issue for each source among the first `n` names of a platform's directory
/// that implements no contract.
pub open spec fn orphans_upto(
    t: ProjectTreeView,
    faces: Seq<InterfaceView>,
    plat: Seq<char>,
    dir: Seq<char>,
    names: Seq<Seq<char>>,
    n: int,
) -> Seq<BuildIssueView>
    decreases n,
{
    if n <= 0 {
        Seq::empty()
    } else {
        let done = orphans_upto(t, faces, plat, dir, names, n - 1);
        let name = names[n - 1];
        if (ends(name, ".cpp"@) || ends(name, ".cxx"@) || ends(name, ".cc"@)) && !has_contract(
            t,
            faces,
            dir,
            name,
        ) {
            done.push(
                BuildIssueView {
                    severity: "warning"@,
                    kind: "orphan_implementation"@,
                    message: "HAL implementation "@
                        + name
                        + " in "@
                        + plat
                        + " has no interface header"@,
                },
            )
        } else {
            done
        }
    }
}

/// The orphans of the first `n` platforms.
pub open spec fn all_orphans_upto(
    t: ProjectTreeView,
    faces: Seq<InterfaceView>,
    homes: Seq<(Seq<char>, Seq<char>)>,
    n: int,
) -> Seq<BuildIssueView>
    decreases n,
{
    if n <= 0 {
        Seq::empty()
    } else {
        let names = names_in(t, homes[n - 1].1);
        all_orphans_upto(t, faces, homes, n - 1) + orphans_upto(
            t,
            faces,
            homes[n - 1].0,
            homes[n - 1].1,
            names,
            names.len() as int,
        )
    }
}

fn add_orphans(
    tree: &ProjectTree,
    faces: &Vec<Interface>,
    homes: &Vec<(String, String)>,
    issues: &mut Vec<BuildIssue>,
)
    ensures
        final(issues).deep_view() == old(issues).deep_view() + all_orphans_upto(
            tree.deep_view(),
            faces.deep_view(),
            homes.deep_view(),
            homes.deep_view().len() as int,
        ),
{
    let ghost t = tree.deep_view();
    let ghost heads = faces.deep_view();
    let ghost all = homes.deep_view();
    let ghost start = issues.deep_view();
    let mut i: usize = 0;
    assert(issues.deep_view() =~= start + all_orphans_upto(t, heads, all, 0));
    while i < homes.len()
        invariant
            i <= homes@.len(),
            t == tree.deep_view(),
            heads == faces.deep_view(),
            all == homes.deep_view(),
            issues.deep_view() == start + all_orphans_upto(t, heads, all, i as int),
        decreases homes@.len() - i,
    {
        assert(all[i as int] == (homes[i as int].0@, homes[i as int].1@));
        let plat = homes[i].0.as_str();
        let dir = homes[i].1.as_str();
        let names = tree.list(dir);
        let ghost list = names.deep_view();
        let ghost before = issues.deep_view();
        let mut j: usize = 0;
        assert(issues.deep_view() =~= before + orphans_upto(t, heads, plat@, dir@, list, 0));
        while j < names.len()
            invariant
                j <= names@.len(),
                t == tree.deep_view(),
                heads == faces.deep_view(),
                list == names.deep_view(),
                issues.deep_view() == before + orphans_upto(t, heads, plat@, dir@, list, j as int),
            decreases names@.len() - j,
        {
            let name = names[j].as_str();
            if ends_with(name, ".cpp") || ends_with(name, ".cxx") || ends_with(name, ".cc") {
                if !finds_contract(tree, faces, dir, name) {
                    let mut s = "HAL implementation ".to_owned();
                    s.append(name);
                    s.append(" in ");
                    s.append(plat);
                    s.append(" has no interface header");
                    add_item(issues, new_issue("orphan_implementation", s));
                }
            }
            assert(issues.deep_view() =~= before + orphans_upto(t, heads, plat@, dir@, list, j + 1));
            j = j + 1;
        }
        assert(issues.deep_view() =~= start + all_orphans_upto(t, heads, all, i + 1));
        i = i + 1;
    }
}

/// The HAL interfaces of a project and the issues with their implementations.
/// A project without interfaces has no issues.
pub open spec fn hal_findings(t: ProjectTreeView, targets: Seq<BuildTargetView>) -> (
    Seq<HalInterfaceView>,
    Seq<BuildIssueView>,
) {
    let homes = impl_homes(t, targets);
    let headers = contract_headers(t);
    let (interfaces, issues) = findings_upto(t, homes, targets, headers, headers.len() as int);
    if interfaces.len() == 0 {
        (interfaces, Seq::empty())
    } else {
        (interfaces, issues + all_orphans_upto(t, interfaces_of(t, headers), homes, homes.len() as int))
    }
}

fn list_row_platforms(rows: &Vec<(String, Vec<String>)>) -> (r: Vec<String>)
    ensures
        r.deep_view() == row_platforms(rows.deep_view()),
{
    let ghost all = rows.deep_view();
    let ghost one = |i: int| all[i].0;
    let mut out: Vec<String> = Vec::new();
    assert(out.deep_view() =~= Seq::new(0, one));
    let mut i: usize = 0;
    while i < rows.len()
        invariant
            i <= rows@.len(),
            all == rows.deep_view(),
            one == (|i: int| all[i].0),
            out.deep_view() == Seq::new(i as nat, one),
        decreases rows@.len() - i,
    {
        assert(all[i as int] == (rows[i as int].0@, rows[i as int].1.deep_view()));
        add_item(&mut out, rows[i].0.clone());
        assert(out.deep_view() =~= Seq::new((i + 1) as nat, one));
        i = i + 1;
    }
    assert(out.deep_view() =~= row_platforms(all));
    out
}

/// Finds the HAL contracts of a project, the platforms that implement them, and
/// what is wrong with the implementations: more than one for a platform, none at
/// all, methods left out, or a source that belongs to no contract.
pub fn detect_hal_interfaces(tree: &ProjectTree, targets: &Vec<BuildTarget>) -> (r: (
    Vec<HalInterface>,
    Vec<BuildIssue>,
))
    ensures
        r.0.deep_view() == hal_findings(tree.deep_view(), targets.deep_view()).0,
        r.1.deep_view() == hal_findings(tree.deep_view(), targets.deep_view()).1,
{
    let ghost t = tree.deep_view();
    let ghost goals = targets.deep_view();
    let homes = list_homes(tree, targets);
    let ghost dirs = homes.deep_view();
    let mut headers: Vec<(String, String)> = Vec::new();
    assert(headers.deep_view() =~= Seq::empty());
    add_headers(tree, "hal/api", &mut headers);
    add_headers(tree, "toolkit/src/hal/api", &mut headers);
    let ghost all = headers.deep_view();
    let mut interfaces: Vec<HalInterface> = Vec::new();
    let mut issues: Vec<BuildIssue> = Vec::new();
    assert(interfaces.deep_view() =~= Seq::empty());
    assert(issues.deep_view() =~= Seq::empty());
    let mut faces: Vec<Interface> = Vec::new();
    assert(faces.deep_view() =~= Seq::new(0, |k: int| interface_of(t, all[k])));
    let mut i: usize = 0;
    while i < headers.len()
        invariant
            i <= headers@.len(),
            t == tree.deep_view(),
            goals == targets.deep_view(),
            dirs == homes.deep_view(),
            all == headers.deep_view(),
            interfaces.deep_view() == findings_upto(t, dirs, goals, all, i as int).0,
            issues.deep_view() == findings_upto(t, dirs, goals, all, i as int).1,
            faces.deep_view() == Seq::new(i as nat, |k: int| interface_of(t, all[k])),
        decreases headers@.len() - i,
    {
        assert(all[i as int] == (headers[i as int].0@, headers[i as int].1@));
        let stem = headers[i].0.as_str();
        let path = headers[i].1.as_str();
        let ghost before = issues.deep_view();
        let face = read_interface(tree, stem, path);
        let rows = list_implementers(tree, &homes, &face);
        add_duplicates(stem, &rows, &mut issues);
        add_shortfalls(tree, &homes, &face, &rows, targets, &mut issues);
        assert(issues.deep_view() =~= before + interface_findings(t, dirs, goals, all[i as int]).1);
        let implementations = list_row_platforms(&rows);
        add_item(
            &mut interfaces,
            HalInterface { name: stem.to_owned(), header_path: path.to_owned(), implementations },
        );
        add_item(&mut faces, face);
        assert(faces.deep_view() =~= Seq::new((i + 1) as nat, |k: int| interface_of(t, all[k])));
        i = i + 1;
    }
    if interfaces.len() == 0 {
        let none: Vec<BuildIssue> = Vec::new();
        assert(none.deep_view() =~= Seq::empty());
        return (interfaces, none);
    }
    assert(faces.deep_view() =~= interfaces_of(t, all));
    add_orphans(tree, &faces, &homes, &mut issues);
    (interfaces, issues)
}

} // verus!
