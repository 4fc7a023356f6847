//! What the modify flows share: what a build reports, how two measurements
//! compare, and how counts are shown.

use vstd::prelude::*;

use crate::text::{add_item, copy_texts, decimal, list_has, number_text};

verus! {

/// The errors that a build reports for one file.
#[derive(Debug, PartialEq, Eq)]
pub struct FileErrors {
    pub file: String,
    pub errors: Vec<String>,
}

/// What a [`FileErrors`] holds.
#[verifier::ext_equal]
pub struct FileErrorsView {
    pub file: Seq<char>,
    pub errors: Seq<Seq<char>>,
}

impl DeepView for FileErrors {
    type V = FileErrorsView;

    open spec fn deep_view(&self) -> FileErrorsView {
        FileErrorsView {
            file: self.file@,
            errors: self.errors.deep_view(),
        }
    }
}

impl Clone for FileErrors {
    fn clone(&self) -> (r: Self)
        ensures
            r.deep_view() == self.deep_view(),
    {
        FileErrors {
            file: self.file.clone(),
            errors: copy_texts(&self.errors),
        }
    }
}

/// A copy of a list of [`FileErrors`] values.
pub fn copy_file_errors(v: &Vec<FileErrors>) -> (r: Vec<FileErrors>)
    ensures
        r.deep_view() == v.deep_view(),
{
    let mut out: Vec<FileErrors> = Vec::new();
    let mut i: usize = 0;
    while i < v.len()
        invariant
            i <= v@.len(),
            out.deep_view() == v.deep_view().take(i as int),
        decreases v@.len() - i,
    {
        add_item(&mut out, v[i].clone());
        assert(v.deep_view().take(i + 1) =~= v.deep_view().take(i as int).push(v[i as int].deep_view()));
        i = i + 1;
    }
    assert(v.deep_view().take(v@.len() as int) =~= v.deep_view());
    out
}

/// Something that a flow wants changed.
#[derive(Debug, PartialEq, Eq)]
pub struct ChangeTarget {
    /// Stable identity.
    pub id: String,
    /// The file that it is about.
    pub path: String,
    /// What is wrong with it.
    pub context: Vec<String>,
}

/// What a [`ChangeTarget`] holds.
#[verifier::ext_equal]
pub struct ChangeTargetView {
    pub id: Seq<char>,
    pub path: Seq<char>,
    pub context: Seq<Seq<char>>,
}

impl DeepView for ChangeTarget {
    type V = ChangeTargetView;

    open spec fn deep_view(&self) -> ChangeTargetView {
        ChangeTargetView {
            id: self.id@,
            path: self.path@,
            context: self.context.deep_view(),
        }
    }
}

impl Clone for ChangeTarget {
    fn clone(&self) -> (r: Self)
        ensures
            r.deep_view() == self.deep_view(),
    {
        ChangeTarget {
            id: self.id.clone(),
            path: self.path.clone(),
            context: copy_texts(&self.context),
        }
    }
}

/// The errors of the first `n` files.
pub open spec fn errors_upto(errors: Seq<FileErrorsView>, n: int) -> nat
    decreases n,
{
    if n <= 0 {
        0
    } else {
        errors_upto(errors, n - 1) + errors[n - 1].errors.len()
    }
}

/// All errors of a build.
pub open spec fn errors_total(errors: Seq<FileErrorsView>) -> nat {
    errors_upto(errors, errors.len() as int)
}

proof fn errors_grow(errors: Seq<FileErrorsView>, i: int, j: int)
    requires
        i <= j,
    ensures
        errors_upto(errors, i) <= errors_upto(errors, j),
    decreases j - i,
{
    if i < j {
        errors_grow(errors, i, j - 1);
    }
}

/// Counts the errors of a build.
pub fn total(errors: &Vec<FileErrors>) -> (r: usize)
    requires
        errors_total(errors.deep_view()) <= usize::MAX,
    ensures
        r == errors_total(errors.deep_view()),
{
    let ghost all = errors.deep_view();
    let mut n: usize = 0;
    let mut i: usize = 0;
    while i < errors.len()
        invariant
            i <= errors@.len(),
            all == errors.deep_view(),
            errors_total(all) <= usize::MAX,
            n == errors_upto(all, i as int),
        decreases errors@.len() - i,
    {
        assert(all[i as int] == errors[i as int].deep_view());
        assert(all[i as int].errors.len() == errors[i as int].errors@.len());
        proof {
            errors_grow(all, i + 1, all.len() as int);
        }
        n = n + errors[i].errors.len();
        i = i + 1;
    }
    n
}

/// A test leg got worse: it ran both times, and more tests failed.
pub open spec fn regressed(before: Option<usize>, after: Option<usize>) -> bool {
    match (before, after) {
        (Some(b), Some(a)) => a > b,
        _ => false,
    }
}

/// Whether a test leg got worse. One that did not run cannot have.
pub fn worse(before: Option<usize>, after: Option<usize>) -> (r: bool)
    ensures
        r == regressed(before, after),
{
    match (before, after) {
        (Some(b), Some(a)) => a > b,
        _ => false,
    }
}

/// A test count as text; one that never ran is not a zero.
pub open spec fn shown(count: Option<usize>) -> Seq<char> {
    match count {
        Some(n) => decimal(n as int),
        None => "not run"@,
    }
}

/// A test count as text.
pub fn show(count: Option<usize>) -> (r: String)
    ensures
        r@ == shown(count),
{
    match count {
        Some(n) => number_text(n),
        None => "not run".to_owned(),
    }
}

/// The list with the item behind it, unless it is there already.
pub open spec fn with_item(list: Seq<Seq<char>>, item: Seq<char>) -> Seq<Seq<char>> {
    if list.contains(item) {
        list
    } else {
        list.push(item)
    }
}

/// Adds the item to the list, unless it is there already.
pub fn add_once(list: &mut Vec<String>, item: &str)
    ensures
        final(list).deep_view() == with_item(old(list).deep_view(), item@),
{
    if !list_has(list, item) {
        add_item(list, item.to_owned());
    }
}

} // verus!
