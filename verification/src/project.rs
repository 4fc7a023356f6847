//! A project on disk as a plain value, and the questions asked of it.

use vstd::prelude::*;

use crate::text::{
    add_item, after, after_last, append_texts, before, begins, behind_last, copy_text_option, ends, ends_with, find_last, head_of, join, joined, pieces, rfind, same, split, starts_with, tail_of,
};

verus! {

/// One file or directory of a project.
#[derive(Debug, PartialEq, Eq)]
pub struct Entry {
    /// Path from the root on, its parts joined by `/`; one beside or above the root
    /// begins with `..`.
    pub path: String,
    /// Whether it is a directory.
    pub is_dir: bool,
    /// The text of a file that could be read as text.
    pub content: Option<String>,
}

/// What a [`Entry`] holds.
#[verifier::ext_equal]
pub struct EntryView {
    pub path: Seq<char>,
    pub is_dir: bool,
    pub content: Option<Seq<char>>,
}

impl DeepView for Entry {
    type V = EntryView;

    open spec fn deep_view(&self) -> EntryView {
        EntryView {
            path: self.path@,
            is_dir: self.is_dir,
            content: self.content.deep_view(),
        }
    }
}

impl Clone for Entry {
    fn clone(&self) -> (r: Self)
        ensures
            r.deep_view() == self.deep_view(),
    {
        Entry {
            path: self.path.clone(),
            is_dir: self.is_dir,
            content: copy_text_option(&self.content),
        }
    }
}

/// A project on disk: every file and directory below its root, each directory listed
/// in the order in which the file system gives its entries.
#[derive(Debug, PartialEq, Eq)]
pub struct ProjectTree {
    /// The root's own path.
    pub root: String,
    /// The files and directories below it, and of those beside or above it the ones
    /// that something in the project leads to.
    pub entries: Vec<Entry>,
}

/// What a [`ProjectTree`] holds.
#[verifier::ext_equal]
pub struct ProjectTreeView {
    pub root: Seq<char>,
    pub entries: Seq<EntryView>,
}

impl DeepView for ProjectTree {
    type V = ProjectTreeView;

    open spec fn deep_view(&self) -> ProjectTreeView {
        ProjectTreeView {
            root: self.root@,
            entries: self.entries.deep_view(),
        }
    }
}

// ---------------------------------------------------------------------------
// Paths
// ---------------------------------------------------------------------------

/// A path below a directory; the root is the empty path.
pub open spec fn path_join(dir: Seq<char>, name: Seq<char>) -> Seq<char> {
    if dir.len() == 0 {
        name
    } else {
        dir + "/"@ + name
    }
}

/// A path below a directory; the root is the empty path.
pub fn join_path(dir: &str, name: &str) -> (r: String)
    ensures
        r@ == path_join(dir@, name@),
{
    if dir.unicode_len() == 0 {
        name.to_owned()
    } else {
        let mut s = dir.to_owned();
        s.append("/");
        s.append(name);
        s
    }
}

/// A path below the root as a path of its own.
pub open spec fn full_path(root: Seq<char>, path: Seq<char>) -> Seq<char> {
    if root.len() == 0 {
        path
    } else if ends(root, "/"@) {
        root + path
    } else {
        root + "/"@ + path
    }
}

/// A path below the root as a path of its own.
pub fn path_from_root(root: &str, path: &str) -> (r: String)
    ensures
        r@ == full_path(root@, path@),
{
    if root.unicode_len() == 0 {
        path.to_owned()
    } else {
        let mut s = root.to_owned();
        if !ends_with(root, "/") {
            s.append("/");
        }
        s.append(path);
        s
    }
}

/// The directory that a path stands in.
pub open spec fn parent_of(path: Seq<char>) -> Seq<char> {
    match find_last(path, "/"@) {
        Some(k) => before(path, k),
        None => Seq::empty(),
    }
}

/// The last part of a path.
pub open spec fn name_of(path: Seq<char>) -> Seq<char> {
    after_last(path, "/"@)
}

/// The directory that a path stands in.
pub fn parent_path(path: &str) -> (r: &str)
    ensures
        r@ == parent_of(path@),
{
    match rfind(path, "/") {
        Some(k) => head_of(path, k),
        None => head_of(path, 0),
    }
}

/// The last part of a path.
pub fn path_name(path: &str) -> (r: &str)
    ensures
        r@ == name_of(path@),
{
    behind_last(path, "/")
}

/// The position of the dot that separates a file name's extension; none in a
/// name that has no dot but a leading one.
pub open spec fn dot_of(name: Seq<char>) -> Option<int> {
    match find_last(name, "."@) {
        Some(k) => if k == 0 {
            None
        } else {
            Some(k)
        },
        None => None,
    }
}

/// The extension of a file name.
pub open spec fn extension_of(name: Seq<char>) -> Option<Seq<char>> {
    match dot_of(name) {
        Some(k) => Some(after(name, k + 1)),
        None => None,
    }
}

/// A file name without its extension.
pub open spec fn stem_of(name: Seq<char>) -> Seq<char> {
    match dot_of(name) {
        Some(k) => before(name, k),
        None => name,
    }
}

/// The extension of a file name.
pub fn file_extension(name: &str) -> (r: Option<String>)
    ensures
        r.deep_view() == extension_of(name@),
{
    proof {
        reveal_strlit(".");
    }
    match rfind(name, ".") {
        Some(k) => {
            if k == 0 {
                None
            } else {
                let n: usize = name.unicode_len();
                assert(k + 1 <= n);
                Some(tail_of(name, k + 1).to_owned())
            }
        },
        None => None,
    }
}

/// A file name without its extension.
pub fn file_stem(name: &str) -> (r: &str)
    ensures
        r@ == stem_of(name@),
{
    match rfind(name, ".") {
        Some(k) => if k == 0 {
            name
        } else {
            head_of(name, k)
        },
        None => name,
    }
}

/// The file name has the extension.
pub open spec fn has_extension(name: Seq<char>, extension: Seq<char>) -> bool {
    extension_of(name) == Some(extension)
}

/// Whether the file name has the extension.
pub fn with_extension(name: &str, extension: &str) -> (r: bool)
    ensures
        r == has_extension(name@, extension@),
{
    match file_extension(name) {
        Some(e) => same(e.as_str(), extension),
        None => false,
    }
}

// ---------------------------------------------------------------------------
// Questions
// ---------------------------------------------------------------------------

/// The position of the path from `k` on.
pub open spec fn entry_from(entries: Seq<EntryView>, path: Seq<char>, k: int) -> Option<int>
    decreases entries.len() - k,
{
    if k < 0 || k >= entries.len() {
        None
    } else if entries[k].path == path {
        Some(k)
    } else {
        entry_from(entries, path, k + 1)
    }
}

/// The path exists.
pub open spec fn exists_at(t: ProjectTreeView, path: Seq<char>) -> bool {
    entry_from(t.entries, path, 0) is Some
}

/// The path is a directory.
pub open spec fn dir_at(t: ProjectTreeView, path: Seq<char>) -> bool {
    match entry_from(t.entries, path, 0) {
        Some(k) => t.entries[k].is_dir,
        None => false,
    }
}

/// The path is a file.
pub open spec fn file_at(t: ProjectTreeView, path: Seq<char>) -> bool {
    match entry_from(t.entries, path, 0) {
        Some(k) => !t.entries[k].is_dir,
        None => false,
    }
}

/// The text of the file at the path, where it can be read.
pub open spec fn content_at(t: ProjectTreeView, path: Seq<char>) -> Option<Seq<char>> {
    match entry_from(t.entries, path, 0) {
        Some(k) => t.entries[k].content,
        None => None,
    }
}

/// The names of the entries of a directory among the first `n`, in order.
pub open spec fn names_upto(entries: Seq<EntryView>, dir: Seq<char>, n: int) -> Seq<Seq<char>>
    decreases n,
{
    if n <= 0 {
        Seq::empty()
    } else {
        let done = names_upto(entries, dir, n - 1);
        if parent_of(entries[n - 1].path) == dir {
            done.push(name_of(entries[n - 1].path))
        } else {
            done
        }
    }
}

/// The names of the entries of a directory, in the order of its listing.
pub open spec fn names_in(t: ProjectTreeView, dir: Seq<char>) -> Seq<Seq<char>> {
    names_upto(t.entries, dir, t.entries.len() as int)
}

impl ProjectTree {
    fn find(&self, path: &str) -> (r: Option<usize>)
        ensures
            (match r {
                Some(k) => k < self.entries.len() && entry_from(
                    self.entries.deep_view(),
                    path@,
                    0,
                ) == Some(k as int),
                None => entry_from(self.entries.deep_view(), path@, 0) is None,
            }),
    {
        let mut k: usize = 0;
        while k < self.entries.len()
            invariant
                k <= self.entries@.len(),
                entry_from(self.entries.deep_view(), path@, 0) == entry_from(
                    self.entries.deep_view(),
                    path@,
                    k as int,
                ),
            decreases self.entries@.len() - k,
        {
            if same(self.entries[k].path.as_str(), path) {
                return Some(k);
            }
            k = k + 1;
        }
        None
    }

    /// Whether the path exists.
    pub fn has_path(&self, path: &str) -> (r: bool)
        ensures
            r == exists_at(self.deep_view(), path@),
    {
        self.find(path).is_some()
    }

    /// Whether the path is a directory.
    pub fn is_dir(&self, path: &str) -> (r: bool)
        ensures
            r == dir_at(self.deep_view(), path@),
    {
        match self.find(path) {
            Some(k) => self.entries[k].is_dir,
            None => false,
        }
    }

    /// Whether the path is a file.
    pub fn is_file(&self, path: &str) -> (r: bool)
        ensures
            r == file_at(self.deep_view(), path@),
    {
        match self.find(path) {
            Some(k) => !self.entries[k].is_dir,
            None => false,
        }
    }

    /// The text of the file at the path, where it can be read.
    pub fn read(&self, path: &str) -> (r: Option<String>)
        ensures
            r.deep_view() == content_at(self.deep_view(), path@),
    {
        match self.find(path) {
            Some(k) => copy_text_option(&self.entries[k].content),
            None => None,
        }
    }

    /// The names of the entries of a directory, in the order of its listing.
    pub fn list(&self, dir: &str) -> (r: Vec<String>)
        ensures
            r.deep_view() == names_in(self.deep_view(), dir@),
    {
        let mut out: Vec<String> = Vec::new();
        assert(out.deep_view() =~= Seq::empty());
        let mut i: usize = 0;
        while i < self.entries.len()
            invariant
                i <= self.entries@.len(),
                out.deep_view() == names_upto(self.entries.deep_view(), dir@, i as int),
            decreases self.entries@.len() - i,
        {
            let path = self.entries[i].path.as_str();
            if same(parent_path(path), dir) {
                add_item(&mut out, path_name(path).to_owned());
            }
            i = i + 1;
        }
        out
    }
}

/// The headers among the first `n` names of a directory that can be read, each
/// with its text.
pub open spec fn headers_upto(
    t: ProjectTreeView,
    dir: Seq<char>,
    names: Seq<Seq<char>>,
    n: int,
) -> Seq<(Seq<char>, Seq<char>)>
    decreases n,
{
    if n <= 0 {
        Seq::empty()
    } else {
        let done = headers_upto(t, dir, names, n - 1);
        if !has_extension(names[n - 1], "hpp"@) && !has_extension(names[n - 1], "h"@) {
            done
        } else {
            match content_at(t, path_join(dir, names[n - 1])) {
                Some(content) => done.push((names[n - 1], content)),
                None => done,
            }
        }
    }
}

/// The headers of a directory that can be read, each with its text.
pub open spec fn headers_in(t: ProjectTreeView, dir: Seq<char>) -> Seq<(Seq<char>, Seq<char>)> {
    if dir_at(t, dir) {
        headers_upto(t, dir, names_in(t, dir), names_in(t, dir).len() as int)
    } else {
        Seq::empty()
    }
}

impl ProjectTree {
    /// The headers of a directory that can be read, each with its text.
    pub fn headers(&self, dir: &str) -> (r: Vec<(String, String)>)
        ensures
            r.deep_view() == headers_in(self.deep_view(), dir@),
    {
        let ghost t = self.deep_view();
        let mut out: Vec<(String, String)> = Vec::new();
        assert(out.deep_view() =~= Seq::empty());
        if !self.is_dir(dir) {
            return out;
        }
        let names = self.list(dir);
        let mut i: usize = 0;
        while i < names.len()
            invariant
                i <= names@.len(),
                t == self.deep_view(),
                out.deep_view() == headers_upto(t, dir@, names.deep_view(), i as int),
            decreases names@.len() - i,
        {
            let name = names[i].as_str();
            if with_extension(name, "hpp") || with_extension(name, "h") {
                match self.read(join_path(dir, name).as_str()) {
                    Some(content) => {
                        add_item(&mut out, (name.to_owned(), content));
                    },
                    None => {},
                }
            }
            i = i + 1;
        }
        out
    }
}

/// Every text of the tree is shorter than what line and column numbers can
/// count.
pub open spec fn small_texts(t: ProjectTreeView) -> bool {
    forall|i: int|
        0 <= i < t.entries.len() ==> ((#[trigger] t.entries[i]).content matches Some(c) ==> c.len()
            < 0x3fff_ffff)
}

/// The parts among the first `n` that lead somewhere.
pub open spec fn steps_upto(parts: Seq<Seq<char>>, n: int) -> Seq<Seq<char>>
    decreases n,
{
    if n <= 0 {
        Seq::empty()
    } else {
        let done = steps_upto(parts, n - 1);
        if parts[n - 1].len() == 0 || parts[n - 1] == "."@ {
            done
        } else {
            done.push(parts[n - 1])
        }
    }
}

/// Where the first `n` steps lead: a step `..` undoes the one before it; above the
/// top of an absolute path there is nothing, and a relative one goes on upwards.
pub open spec fn walked_upto(steps: Seq<Seq<char>>, absolute: bool, n: int) -> Seq<Seq<char>>
    decreases n,
{
    if n <= 0 {
        Seq::empty()
    } else {
        let done = walked_upto(steps, absolute, n - 1);
        if steps[n - 1] != ".."@ {
            done.push(steps[n - 1])
        } else if done.len() > 0 && done.last() != ".."@ {
            done.drop_last()
        } else if absolute {
            done
        } else {
            done.push(".."@)
        }
    }
}

/// The steps of a path.
pub open spec fn steps_of(path: Seq<char>) -> Seq<Seq<char>> {
    steps_upto(pieces(path, '/'), pieces(path, '/').len() as int)
}

/// Where steps lead.
pub open spec fn walked(steps: Seq<Seq<char>>, absolute: bool) -> Seq<Seq<char>> {
    walked_upto(steps, absolute, steps.len() as int)
}

/// How many steps two ways have in common, those before `k` among them.
pub open spec fn shared_steps(a: Seq<Seq<char>>, b: Seq<Seq<char>>, k: int) -> int
    decreases a.len() - k,
{
    if 0 <= k < a.len() && k < b.len() && a[k] == b[k] {
        shared_steps(a, b, k + 1)
    } else {
        k
    }
}

/// That many steps upwards.
pub open spec fn steps_up(n: int) -> Seq<Seq<char>> {
    Seq::new(n as nat, |i: int| ".."@)
}

/// A path, absolute or from the root on, as a tree of this root has it: with its
/// `..` steps taken, and without parts that stay where they are; only where it
/// leads out of the root does it begin with `..`. `None` for an absolute path
/// beside a relative root, which does not say where it lies.
pub open spec fn plain_path(root: Seq<char>, path: Seq<char>) -> Option<Seq<char>> {
    let absolute = begins(root, "/"@);
    let base = walked(steps_of(root), absolute);
    let place = if begins(path, "/"@) {
        walked(steps_of(path), true)
    } else {
        walked(steps_of(root) + steps_of(path), absolute)
    };
    if begins(path, "/"@) && !absolute {
        None
    } else {
        let n = shared_steps(base, place, 0);
        Some(joined(steps_up(base.len() - n) + place.skip(n), "/"@))
    }
}

/// The name of a directory's last step: none where the path takes no step, or
/// where the last one leads upwards.
pub open spec fn dir_name(path: Seq<char>) -> Option<Seq<char>> {
    let steps = steps_of(path);
    if steps.len() == 0 || steps.last() == ".."@ {
        None
    } else {
        Some(steps.last())
    }
}

fn list_steps(path: &str) -> (r: Vec<String>)
    ensures
        r.deep_view() == steps_of(path@),
{
    let parts = split(path, '/');
    let mut out: Vec<String> = Vec::new();
    assert(out.deep_view() =~= Seq::empty());
    let mut i: usize = 0;
    while i < parts.len()
        invariant
            i <= parts@.len(),
            out.deep_view() == steps_upto(parts.deep_view(), i as int),
        decreases parts@.len() - i,
    {
        if parts[i].as_str().unicode_len() > 0 && !same(parts[i].as_str(), ".") {
            add_item(&mut out, parts[i].clone());
        }
        i = i + 1;
    }
    out
}

/// Whether a path takes a step.
pub fn takes_steps(path: &str) -> (r: bool)
    ensures
        r == (steps_of(path@).len() > 0),
{
    let steps = list_steps(path);
    assert(steps.deep_view().len() == steps@.len());
    steps.len() > 0
}

/// The name of a directory's last step.
pub fn find_dir_name(path: &str) -> (r: Option<String>)
    ensures
        r.deep_view() == dir_name(path@),
{
    let steps = list_steps(path);
    if steps.len() == 0 {
        return None;
    }
    let last: usize = steps.len() - 1;
    assert(steps.deep_view().last() == steps[last as int]@);
    if same(steps[last].as_str(), "..") {
        None
    } else {
        Some(steps[last].clone())
    }
}

fn walk(steps: &Vec<String>, absolute: bool) -> (r: Vec<String>)
    ensures
        r.deep_view() == walked(steps.deep_view(), absolute),
{
    let ghost all = steps.deep_view();
    let mut out: Vec<String> = Vec::new();
    assert(out.deep_view() =~= Seq::empty());
    let mut i: usize = 0;
    while i < steps.len()
        invariant
            i <= steps@.len(),
            all == steps.deep_view(),
            out.deep_view() == walked_upto(all, absolute, i as int),
        decreases steps@.len() - i,
    {
        let ghost done = out.deep_view();
        assert(done.len() == out@.len());
        if !same(steps[i].as_str(), "..") {
            add_item(&mut out, steps[i].clone());
        } else {
            let size: usize = out.len();
            let back = size > 0 && {
                assert(done.last() == out[size - 1]@);
                !same(out[size - 1].as_str(), "..")
            };
            if back {
                let _ = out.pop();
                assert(out.deep_view() =~= done.drop_last());
            } else if !absolute {
                add_item(&mut out, "..".to_owned());
            }
        }
        i = i + 1;
    }
    out
}

/// A path with its last step replaced.
pub open spec fn with_last_step(path: Seq<char>, name: Seq<char>) -> Seq<char> {
    let steps = joined(steps_of(path).drop_last().push(name), "/"@);
    if begins(path, "/"@) {
        "/"@ + steps
    } else {
        steps
    }
}

/// A path with its last step left out.
pub open spec fn without_last_step(path: Seq<char>) -> Seq<char> {
    let steps = joined(steps_of(path).drop_last(), "/"@);
    if begins(path, "/"@) {
        "/"@ + steps
    } else {
        steps
    }
}

fn rebuild(path: &str, steps: &Vec<String>) -> (r: String)
    ensures
        r@ == if begins(path@, "/"@) {
            "/"@ + joined(steps.deep_view(), "/"@)
        } else {
            joined(steps.deep_view(), "/"@)
        },
{
    let text = join(steps, "/");
    if starts_with(path, "/") {
        let mut r = "/".to_owned();
        r.append(text.as_str());
        r
    } else {
        text
    }
}

/// A path with its last step replaced.
pub fn replace_last_step(path: &str, name: &str) -> (r: String)
    requires
        steps_of(path@).len() > 0,
    ensures
        r@ == with_last_step(path@, name@),
{
    let mut steps = list_steps(path);
    let ghost all = steps.deep_view();
    assert(all.len() == steps@.len());
    let _ = steps.pop();
    assert(steps.deep_view() =~= all.drop_last());
    add_item(&mut steps, name.to_owned());
    rebuild(path, &steps)
}

/// A path with its last step left out.
pub fn drop_last_step(path: &str) -> (r: String)
    requires
        steps_of(path@).len() > 0,
    ensures
        r@ == without_last_step(path@),
{
    let mut steps = list_steps(path);
    let ghost all = steps.deep_view();
    assert(all.len() == steps@.len());
    let _ = steps.pop();
    assert(steps.deep_view() =~= all.drop_last());
    rebuild(path, &steps)
}

/// A path, absolute or from the root on, as a tree of this root has it.
pub fn to_plain_path(root: &str, path: &str) -> (r: Option<String>)
    ensures
        r.deep_view() == plain_path(root@, path@),
{
    let absolute = starts_with(root, "/");
    let base = walk(&list_steps(root), absolute);
    let place = if starts_with(path, "/") {
        if !absolute {
            return None;
        }
        walk(&list_steps(path), true)
    } else {
        let mut steps = list_steps(root);
        append_texts(&mut steps, &list_steps(path));
        walk(&steps, absolute)
    };
    let ghost from = base.deep_view();
    let ghost to = place.deep_view();
    let mut n: usize = 0;
    while n < base.len() && n < place.len() && same(base[n].as_str(), place[n].as_str())
        invariant
            n <= base@.len(),
            n <= place@.len(),
            from == base.deep_view(),
            to == place.deep_view(),
            shared_steps(from, to, n as int) == shared_steps(from, to, 0),
        decreases base@.len() - n,
    {
        n = n + 1;
    }
    assert(n < from.len() && n < to.len() ==> from[n as int] != to[n as int]);
    let ghost up = steps_up(from.len() - n);
    let mut out: Vec<String> = Vec::new();
    assert(out.deep_view() =~= up.take(0));
    let mut i: usize = n;
    while i < base.len()
        invariant
            n <= i <= base@.len(),
            base@.len() == from.len(),
            up == steps_up(from.len() - n),
            out.deep_view() == up.take(i - n),
        decreases base@.len() - i,
    {
        add_item(&mut out, "..".to_owned());
        assert(up.take(i + 1 - n) =~= up.take(i - n).push(".."@));
        i = i + 1;
    }
    assert(up.take(up.len() as int) =~= up);
    let ghost rest = to.skip(n as int);
    let mut i: usize = n;
    assert(out.deep_view() =~= up + rest.take(0));
    while i < place.len()
        invariant
            n <= i <= place@.len(),
            to == place.deep_view(),
            rest == to.skip(n as int),
            out.deep_view() == up + rest.take(i - n),
        decreases place@.len() - i,
    {
        add_item(&mut out, place[i].clone());
        assert(rest.take(i + 1 - n) =~= rest.take(i - n).push(place[i as int]@));
        assert(out.deep_view() =~= up + rest.take(i + 1 - n));
        i = i + 1;
    }
    assert(rest.take(rest.len() as int) =~= rest);
    Some(join(&out, "/"))
}

} // verus!
