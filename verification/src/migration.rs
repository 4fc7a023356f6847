//! The HAL layout of a project: which one it has, how it is brought into the
//! canonical one, and whether it is complete.
//!
//! The canonical layout keeps contracts below `hal/api` and implementations
//! below `hal/implementations/<platform>`; the legacy one has them below
//! `toolkit/src/hal/api` and `<platform>/hal`.

use vstd::prelude::*;

use crate::contract::{find_paren, paren_from};
use crate::coverage::{is_skipped, skips};
use crate::cpp::{classify_hal_header, header_kind, HalHeaderKind};
use crate::project::{
    content_at, dir_at, exists_at, file_stem, full_path, has_extension, join_path, name_of,
    names_in, parent_of, parent_path, path_from_root, path_join, path_name, stem_of, with_extension,
    ProjectTree, ProjectTreeView,
};
use crate::regexes::{
    escape, escaped, is_match, is_matched, replace_matches, replacement_of, strip_matches, stripped,
};
use crate::text::{
    add_item, add_items, after, append_texts, before, begins, chars_of, contains, distinct, find, find_after, find_from,
    has_text, head_of, join, joined, list_has, same, starts_with, tail_of, without_repeats,
};

verus! {

/// The HAL layout of a project.
#[derive(Debug, Clone, Copy, PartialEq, Eq, Structural)]
pub enum HalLayout {
    /// Everything is in the canonical place.
    Canonical,
    /// Everything is in the legacy place.
    Legacy,
    /// Both layouts are there; only the legacy files move.
    Mixed,
    /// There is no HAL layout.
    Absent,
}

impl HalLayout {
    /// The layout's name.
    pub open spec fn name(self) -> Seq<char> {
        match self {
            HalLayout::Canonical => "canonical"@,
            HalLayout::Legacy => "legacy"@,
            HalLayout::Mixed => "mixed"@,
            HalLayout::Absent => "none"@,
        }
    }

    /// The layout's name.
    pub fn as_str(&self) -> (r: &'static str)
        ensures
            r@ == self.name(),
    {
        match self {
            HalLayout::Canonical => "canonical",
            HalLayout::Legacy => "legacy",
            HalLayout::Mixed => "mixed",
            HalLayout::Absent => "none",
        }
    }
}

/// One file move, by paths below the root.
#[derive(Debug, PartialEq, Eq)]
pub struct FileMove {
    pub from: String,
    pub to: String,
}

/// What a [`FileMove`] holds.
#[verifier::ext_equal]
pub struct FileMoveView {
    pub from: Seq<char>,
    pub to: Seq<char>,
}

impl DeepView for FileMove {
    type V = FileMoveView;

    open spec fn deep_view(&self) -> FileMoveView {
        FileMoveView {
            from: self.from@,
            to: self.to@,
        }
    }
}

impl Clone for FileMove {
    fn clone(&self) -> (r: Self)
        ensures
            r.deep_view() == self.deep_view(),
    {
        FileMove {
            from: self.from.clone(),
            to: self.to.clone(),
        }
    }
}

/// One file to write.
#[derive(Debug, PartialEq, Eq)]
pub struct WriteFile {
    pub path: String,
    pub content: String,
}

/// What a [`WriteFile`] holds.
#[verifier::ext_equal]
pub struct WriteFileView {
    pub path: Seq<char>,
    pub content: Seq<char>,
}

impl DeepView for WriteFile {
    type V = WriteFileView;

    open spec fn deep_view(&self) -> WriteFileView {
        WriteFileView {
            path: self.path@,
            content: self.content@,
        }
    }
}

impl Clone for WriteFile {
    fn clone(&self) -> (r: Self)
        ensures
            r.deep_view() == self.deep_view(),
    {
        WriteFile {
            path: self.path.clone(),
            content: self.content.clone(),
        }
    }
}

/// One replacement of a build file's text.
#[derive(Debug, PartialEq, Eq)]
pub struct BuildFileEdit {
    pub file: String,
    /// The text that the file must still have.
    pub before: String,
    pub after: String,
}

/// What a [`BuildFileEdit`] holds.
#[verifier::ext_equal]
pub struct BuildFileEditView {
    pub file: Seq<char>,
    pub before: Seq<char>,
    pub after: Seq<char>,
}

impl DeepView for BuildFileEdit {
    type V = BuildFileEditView;

    open spec fn deep_view(&self) -> BuildFileEditView {
        BuildFileEditView {
            file: self.file@,
            before: self.before@,
            after: self.after@,
        }
    }
}

impl Clone for BuildFileEdit {
    fn clone(&self) -> (r: Self)
        ensures
            r.deep_view() == self.deep_view(),
    {
        BuildFileEdit {
            file: self.file.clone(),
            before: self.before.clone(),
            after: self.after.clone(),
        }
    }
}

/// What a migration to the canonical layout would do.
#[derive(Debug, PartialEq, Eq)]
pub struct HalMigrationPlan {
    pub layout: HalLayout,
    pub layout_name: String,
    pub moves: Vec<FileMove>,
    pub write_files: Vec<WriteFile>,
    pub build_file_edits: Vec<BuildFileEdit>,
    /// Targets that exist already.
    pub conflicts: Vec<String>,
    /// The paths that decided the layout.
    pub reasons: Vec<String>,
    pub can_apply: bool,
    pub notes: Vec<String>,
}

/// What a [`HalMigrationPlan`] holds.
#[verifier::ext_equal]
pub struct HalMigrationPlanView {
    pub layout: HalLayout,
    pub layout_name: Seq<char>,
    pub moves: Seq<FileMoveView>,
    pub write_files: Seq<WriteFileView>,
    pub build_file_edits: Seq<BuildFileEditView>,
    pub conflicts: Seq<Seq<char>>,
    pub reasons: Seq<Seq<char>>,
    pub can_apply: bool,
    pub notes: Seq<Seq<char>>,
}

impl DeepView for HalMigrationPlan {
    type V = HalMigrationPlanView;

    open spec fn deep_view(&self) -> HalMigrationPlanView {
        HalMigrationPlanView {
            layout: self.layout,
            layout_name: self.layout_name@,
            moves: self.moves.deep_view(),
            write_files: self.write_files.deep_view(),
            build_file_edits: self.build_file_edits.deep_view(),
            conflicts: self.conflicts.deep_view(),
            reasons: self.reasons.deep_view(),
            can_apply: self.can_apply,
            notes: self.notes.deep_view(),
        }
    }
}

/// What a migration did.
#[derive(Debug, PartialEq, Eq)]
pub struct MigrationResult {
    pub applied_moves: Vec<String>,
    pub written_files: Vec<String>,
    pub applied_edits: Vec<String>,
    /// Directories that were removed.
    pub cleanup: Vec<String>,
    pub errors: Vec<String>,
}

/// What a [`MigrationResult`] holds.
#[verifier::ext_equal]
pub struct MigrationResultView {
    pub applied_moves: Seq<Seq<char>>,
    pub written_files: Seq<Seq<char>>,
    pub applied_edits: Seq<Seq<char>>,
    pub cleanup: Seq<Seq<char>>,
    pub errors: Seq<Seq<char>>,
}

impl DeepView for MigrationResult {
    type V = MigrationResultView;

    open spec fn deep_view(&self) -> MigrationResultView {
        MigrationResultView {
            applied_moves: self.applied_moves.deep_view(),
            written_files: self.written_files.deep_view(),
            applied_edits: self.applied_edits.deep_view(),
            cleanup: self.cleanup.deep_view(),
            errors: self.errors.deep_view(),
        }
    }
}

impl Default for MigrationResult {
    fn default() -> (r: Self)
        ensures
            r.deep_view() == (MigrationResultView {
                applied_moves: Seq::empty(),
                written_files: Seq::empty(),
                applied_edits: Seq::empty(),
                cleanup: Seq::empty(),
                errors: Seq::empty(),
            }),
    {
        MigrationResult {
            applied_moves: Vec::new(),
            written_files: Vec::new(),
            applied_edits: Vec::new(),
            cleanup: Vec::new(),
            errors: Vec::new(),
        }
    }
}

/// One structural problem and how to correct it.
#[derive(Debug, PartialEq, Eq)]
pub struct HalIssue {
    /// `error` or `warning`.
    pub severity: String,
    pub title: String,
    pub path: String,
    pub suggested_fix: String,
}

/// What a [`HalIssue`] holds.
#[verifier::ext_equal]
pub struct HalIssueView {
    pub severity: Seq<char>,
    pub title: Seq<char>,
    pub path: Seq<char>,
    pub suggested_fix: Seq<char>,
}

impl DeepView for HalIssue {
    type V = HalIssueView;

    open spec fn deep_view(&self) -> HalIssueView {
        HalIssueView {
            severity: self.severity@,
            title: self.title@,
            path: self.path@,
            suggested_fix: self.suggested_fix@,
        }
    }
}

impl Clone for HalIssue {
    fn clone(&self) -> (r: Self)
        ensures
            r.deep_view() == self.deep_view(),
    {
        HalIssue {
            severity: self.severity.clone(),
            title: self.title.clone(),
            path: self.path.clone(),
            suggested_fix: self.suggested_fix.clone(),
        }
    }
}

/// The outcome of a structural check.
#[derive(Debug, PartialEq, Eq)]
pub struct HalSanityReport {
    /// `ok` or `issues`.
    pub status: String,
    pub layout: String,
    pub issues: Vec<HalIssue>,
    /// The platforms that were found.
    pub platforms: Vec<String>,
    /// The stems of the contracts below `hal/api` or `toolkit/src/hal/api`.
    pub interfaces: Vec<String>,
}

/// What a [`HalSanityReport`] holds.
#[verifier::ext_equal]
pub struct HalSanityReportView {
    pub status: Seq<char>,
    pub layout: Seq<char>,
    pub issues: Seq<HalIssueView>,
    pub platforms: Seq<Seq<char>>,
    pub interfaces: Seq<Seq<char>>,
}

impl DeepView for HalSanityReport {
    type V = HalSanityReportView;

    open spec fn deep_view(&self) -> HalSanityReportView {
        HalSanityReportView {
            status: self.status@,
            layout: self.layout@,
            issues: self.issues.deep_view(),
            platforms: self.platforms.deep_view(),
            interfaces: self.interfaces.deep_view(),
        }
    }
}

// ---------------------------------------------------------------------------
// What stands where
// ---------------------------------------------------------------------------

/// The file name is that of a C or C++ source.
pub open spec fn is_source(name: Seq<char>) -> bool {
    has_extension(name, "cpp"@) || has_extension(name, "c"@)
}

/// The file name is that of a C or C++ source, by any of its extensions.
pub open spec fn is_any_source(name: Seq<char>) -> bool {
    is_source(name) || has_extension(name, "cc"@) || has_extension(name, "cxx"@)
}

fn names_source(name: &str) -> (r: bool)
    ensures
        r == is_source(name@),
{
    with_extension(name, "cpp") || with_extension(name, "c")
}

fn names_any_source(name: &str) -> (r: bool)
    ensures
        r == is_any_source(name@),
{
    names_source(name) || with_extension(name, "cc") || with_extension(name, "cxx")
}

/// The `.hpp` names among the first `n`.
pub open spec fn hpp_upto(names: Seq<Seq<char>>, n: int) -> Seq<Seq<char>>
    decreases n,
{
    if n <= 0 {
        Seq::empty()
    } else {
        let done = hpp_upto(names, n - 1);
        if has_extension(names[n - 1], "hpp"@) {
            done.push(names[n - 1])
        } else {
            done
        }
    }
}

/// The names of a directory, none where it is no directory.
pub open spec fn listing(t: ProjectTreeView, dir: Seq<char>) -> Seq<Seq<char>> {
    if dir_at(t, dir) {
        names_in(t, dir)
    } else {
        Seq::empty()
    }
}

/// The `.hpp` names of a directory.
pub open spec fn hpp_names(t: ProjectTreeView, dir: Seq<char>) -> Seq<Seq<char>> {
    hpp_upto(listing(t, dir), listing(t, dir).len() as int)
}

fn list_dir(tree: &ProjectTree, dir: &str) -> (r: Vec<String>)
    ensures
        r.deep_view() == listing(tree.deep_view(), dir@),
{
    if tree.is_dir(dir) {
        tree.list(dir)
    } else {
        let none: Vec<String> = Vec::new();
        assert(none.deep_view() =~= Seq::empty());
        none
    }
}

/// The `.hpp` names of a directory.
pub fn hpp_files(tree: &ProjectTree, dir: &str) -> (r: Vec<String>)
    ensures
        r.deep_view() == hpp_names(tree.deep_view(), dir@),
{
    let names = list_dir(tree, dir);
    let mut out: Vec<String> = Vec::new();
    assert(out.deep_view() =~= Seq::empty());
    let mut i: usize = 0;
    while i < names.len()
        invariant
            i <= names@.len(),
            out.deep_view() == hpp_upto(names.deep_view(), i as int),
        decreases names@.len() - i,
    {
        if with_extension(names[i].as_str(), "hpp") {
            add_item(&mut out, names[i].clone());
        }
        i = i + 1;
    }
    out
}

/// The platform directories among the first `n` names of the root.
pub open spec fn platforms_upto(t: ProjectTreeView, names: Seq<Seq<char>>, n: int) -> Seq<Seq<char>>
    decreases n,
{
    if n <= 0 {
        Seq::empty()
    } else {
        let done = platforms_upto(t, names, n - 1);
        if dir_at(t, names[n - 1]) && !is_skipped(names[n - 1]) {
            done.push(names[n - 1])
        } else {
            done
        }
    }
}

/// The directories at the root that may be platforms.
pub open spec fn root_dirs(t: ProjectTreeView) -> Seq<Seq<char>> {
    platforms_upto(t, names_in(t, Seq::empty()), names_in(t, Seq::empty()).len() as int)
}

fn list_root_dirs(tree: &ProjectTree) -> (r: Vec<String>)
    ensures
        r.deep_view() == root_dirs(tree.deep_view()),
{
    let ghost t = tree.deep_view();
    let empty = String::new();
    assert(empty@ =~= Seq::empty());
    let names = tree.list(empty.as_str());
    let mut out: Vec<String> = Vec::new();
    assert(out.deep_view() =~= Seq::empty());
    let mut i: usize = 0;
    while i < names.len()
        invariant
            i <= names@.len(),
            t == tree.deep_view(),
            out.deep_view() == platforms_upto(t, names.deep_view(), i as int),
        decreases names@.len() - i,
    {
        if tree.is_dir(names[i].as_str()) && !skips(names[i].as_str()) {
            add_item(&mut out, names[i].clone());
        }
        i = i + 1;
    }
    out
}

/// Some name is that of a C or C++ source.
pub open spec fn any_source(names: Seq<Seq<char>>) -> bool {
    exists|i: int| 0 <= i < names.len() && is_source(#[trigger] names[i])
}

fn has_source(names: &Vec<String>) -> (r: bool)
    ensures
        r == any_source(names.deep_view()),
{
    let ghost all = names.deep_view();
    let mut i: usize = 0;
    while i < names.len()
        invariant
            i <= names@.len(),
            all == names.deep_view(),
            forall|j: int| 0 <= j < i ==> !is_source(#[trigger] all[j]),
        decreases names@.len() - i,
    {
        if names_source(names[i].as_str()) {
            assert(is_source(all[i as int]));
            return true;
        }
        i = i + 1;
    }
    false
}

/// Some directory at the root has implementation sources below `hal`.
pub open spec fn legacy_impls(t: ProjectTreeView) -> bool {
    exists|i: int|
        0 <= i < root_dirs(t).len() && any_source(
            listing(t, path_join(#[trigger] root_dirs(t)[i], "hal"@)),
        )
}

/// Whether some directory at the root has implementation sources below `hal`.
pub fn has_legacy_platform_impls(tree: &ProjectTree) -> (r: bool)
    ensures
        r == legacy_impls(tree.deep_view()),
{
    let ghost t = tree.deep_view();
    let dirs = list_root_dirs(tree);
    let ghost all = dirs.deep_view();
    let mut i: usize = 0;
    while i < dirs.len()
        invariant
            i <= dirs@.len(),
            t == tree.deep_view(),
            all == dirs.deep_view(),
            all == root_dirs(t),
            forall|j: int|
                0 <= j < i ==> !any_source(listing(t, path_join(#[trigger] all[j], "hal"@))),
        decreases dirs@.len() - i,
    {
        let names = list_dir(tree, join_path(dirs[i].as_str(), "hal").as_str());
        if has_source(&names) {
            assert(any_source(listing(t, path_join(all[i as int], "hal"@))));
            return true;
        }
        i = i + 1;
    }
    false
}

// ---------------------------------------------------------------------------
// Build files
// ---------------------------------------------------------------------------

/// A build file without its comments.
pub open spec fn without_comments(text: Seq<char>) -> Seq<char> {
    replacement_of("(?m)#.*$"@, text, Seq::empty())
}

/// A platform's build file still uses the legacy layout: it lists sources below
/// `hal`, or declares a source list of its own. A mere alias of the central
/// list is no such declaration.
pub open spec fn legacy_wiring(text: Seq<char>) -> bool {
    let bare = without_comments(text);
    is_matched("['\"]hal/[^'\"]+\\.(?:c|cpp|cc|cxx)['\"]"@, bare) || is_matched("(?m)^\\s*\\w+_hal_sources\\s*(?:=|\\+=)\\s*files\\s*\\("@, bare)
}

/// Whether a platform's build file, `None` where it cannot be read, still uses
/// the legacy layout.
pub fn platform_meson_has_legacy_hal(text: &Option<String>) -> (r: bool)
    ensures
        r == (text.deep_view() matches Some(c) && legacy_wiring(c)),
{
    match text {
        None => false,
        Some(text) => {
            let none = String::new();
            assert(none@ =~= Seq::empty());
            let bare = replace_matches("(?m)#.*$", text.as_str(), none.as_str());
            is_match("['\"]hal/[^'\"]+\\.(?:c|cpp|cc|cxx)['\"]", bare.as_str()) || is_match("(?m)^\\s*\\w+_hal_sources\\s*(?:=|\\+=)\\s*files\\s*\\(", bare.as_str())
        },
    }
}

/// A platform's build file with its own source list removed and the central one
/// in its place.
pub open spec fn rewritten_meson(plat: Seq<char>, text: Seq<char>) -> Seq<char> {
    let name = escaped(plat + "_hal_sources"@);
    let no_init = replacement_of("(?m)^[ \\t]*"@ + name + "\\s*=\\s*files\\(\\)[ \\t]*$\\n?"@, text, Seq::empty());
    let no_decl = replacement_of("(?ms)^[ \\t]*"@ + name + "\\s*(?:=|\\+=)\\s*files\\(.*?\\)[ \\t]*$\\n?"@, no_init, Seq::empty());
    let no_loop = replacement_of("(?ms)^[ \\t]*foreach\\s+\\w+\\s*:\\s*\\[[^\\]]*['\"]hal/[^'\"]+['\"][^\\]]*\\]\\s*\\n(?:[^\\n]*\\n)*?^[ \\t]*endforeach\\s*\\n"@, no_decl, Seq::empty());
    let central = replacement_of("\\+[ \\t]*"@ + name + "\\b"@, no_loop, "+ hal_impl_"@ + plat + "_sources"@);
    let no_guard = stripped("(?ms)^[ \\t]*if\\s+platform\\s*==\\s*['\"][^'\"]*"@ + plat + "[^'\"]*['\"]\\s*(?:then)?\\s*\\n\\s*endif\\s*\\n"@, central);
    replacement_of("(?m)^[ \\t]*\\n(?:[ \\t]*\\n)+"@, no_guard, "\n"@)
}

/// Rewrites a platform's build file from its own source list to the central
/// one: declarations and loops over `hal` sources go, references become the
/// central variable, and guards left empty are removed.
pub fn rewrite_platform_meson(plat: &str, text: &str) -> (r: String)
    ensures
        r@ == rewritten_meson(plat@, text@),
{
    let none = String::new();
    assert(none@ =~= Seq::empty());
    let mut var = plat.to_owned();
    var.append("_hal_sources");
    let name = escape(var.as_str());
    let name = name.as_str();
    let mut init = "(?m)^[ \\t]*".to_owned();
    init.append(name);
    init.append("\\s*=\\s*files\\(\\)[ \\t]*$\\n?");
    let mut decl = "(?ms)^[ \\t]*".to_owned();
    decl.append(name);
    decl.append("\\s*(?:=|\\+=)\\s*files\\(.*?\\)[ \\t]*$\\n?");
    let mut reference = "\\+[ \\t]*".to_owned();
    reference.append(name);
    reference.append("\\b");
    let mut central = "+ hal_impl_".to_owned();
    central.append(plat);
    central.append("_sources");
    let mut guard = "(?ms)^[ \\t]*if\\s+platform\\s*==\\s*['\"][^'\"]*".to_owned();
    guard.append(plat);
    guard.append("[^'\"]*['\"]\\s*(?:then)?\\s*\\n\\s*endif\\s*\\n");
    let out = replace_matches(init.as_str(), text, none.as_str());
    let out = replace_matches(decl.as_str(), out.as_str(), none.as_str());
    let out = replace_matches("(?ms)^[ \\t]*foreach\\s+\\w+\\s*:\\s*\\[[^\\]]*['\"]hal/[^'\"]+['\"][^\\]]*\\]\\s*\\n(?:[^\\n]*\\n)*?^[ \\t]*endforeach\\s*\\n", out.as_str(), none.as_str());
    let out = replace_matches(reference.as_str(), out.as_str(), central.as_str());
    let out = strip_matches(guard.as_str(), out.as_str());
    replace_matches("(?m)^[ \\t]*\\n(?:[ \\t]*\\n)+", out.as_str(), "\n")
}

/// Some directory at the root has a build file that still uses the legacy
/// layout.
pub open spec fn stale_refs(t: ProjectTreeView) -> bool {
    exists|i: int|
        0 <= i < root_dirs(t).len() && (content_at(
            t,
            path_join(#[trigger] root_dirs(t)[i], "meson.build"@),
        ) matches Some(c) && legacy_wiring(c))
}

/// Whether some directory at the root has a build file that still uses the
/// legacy layout.
pub fn has_stale_platform_hal_refs(tree: &ProjectTree) -> (r: bool)
    ensures
        r == stale_refs(tree.deep_view()),
{
    let ghost t = tree.deep_view();
    let dirs = list_root_dirs(tree);
    let ghost all = dirs.deep_view();
    let mut i: usize = 0;
    while i < dirs.len()
        invariant
            i <= dirs@.len(),
            t == tree.deep_view(),
            all == dirs.deep_view(),
            all == root_dirs(t),
            forall|j: int|
                0 <= j < i ==> !(content_at(t, path_join(#[trigger] all[j], "meson.build"@)) matches Some(
                    c,
                ) && legacy_wiring(c)),
        decreases dirs@.len() - i,
    {
        let text = tree.read(join_path(dirs[i].as_str(), "meson.build").as_str());
        if platform_meson_has_legacy_hal(&text) {
            assert(content_at(t, path_join(all[i as int], "meson.build"@)) matches Some(c)
                && legacy_wiring(c));
            return true;
        }
        i = i + 1;
    }
    false
}

// ---------------------------------------------------------------------------
// The layout
// ---------------------------------------------------------------------------

/// Something stands in the canonical place.
pub open spec fn has_canonical(t: ProjectTreeView) -> bool {
    hpp_names(t, "hal/api"@).len() > 0 || exists_at(t, "hal/implementations"@)
}

/// Something stands in the legacy place, or is wired as if it did.
pub open spec fn has_legacy(t: ProjectTreeView) -> bool {
    listing(t, "toolkit/src/hal/api"@).len() > 0 || legacy_impls(t) || stale_refs(t)
}

/// The layout of a project.
pub open spec fn layout_of(t: ProjectTreeView) -> HalLayout {
    if has_canonical(t) {
        if has_legacy(t) {
            HalLayout::Mixed
        } else {
            HalLayout::Canonical
        }
    } else if has_legacy(t) {
        HalLayout::Legacy
    } else {
        HalLayout::Absent
    }
}

/// Whether a path below the root exists.
pub fn root_has_file(tree: &ProjectTree, rel: &str) -> (r: bool)
    ensures
        r == exists_at(tree.deep_view(), rel@),
{
    tree.has_path(rel)
}

/// The layout of a project. It is canonical only where no legacy mark is left:
/// no file below `toolkit/src/hal/api`, no sources below `<platform>/hal` and no
/// build file that still uses them.
pub fn detect_hal_layout(tree: &ProjectTree) -> (r: HalLayout)
    ensures
        r == layout_of(tree.deep_view()),
{
    let canonical = hpp_files(tree, "hal/api").len() > 0 || root_has_file(tree, "hal/implementations");
    let legacy = list_dir(tree, "toolkit/src/hal/api").len() > 0 || has_legacy_platform_impls(tree)
        || has_stale_platform_hal_refs(tree);
    if canonical {
        if legacy {
            HalLayout::Mixed
        } else {
            HalLayout::Canonical
        }
    } else if legacy {
        HalLayout::Legacy
    } else {
        HalLayout::Absent
    }
}

/// The quoted entries of a source list.
pub open spec fn quoted_entries(platform: Seq<char>, files: Seq<Seq<char>>) -> Seq<Seq<char>> {
    Seq::new(
        files.len(),
        |i: int| "'implementations/"@ + platform + "/"@ + name_of(files[i]) + "'"@,
    )
}

/// A platform's source list on one line.
pub open spec fn var_section(platform: Seq<char>, files: Seq<Seq<char>>) -> Seq<char> {
    "hal_impl_"@ + platform + "_sources = files("@ + joined(quoted_entries(platform, files), ", "@)
        + ")"@
}

/// A platform's source list on one line: `hal_impl_<platform>_sources = files(...)`.
pub fn hal_meson_var_section(platform: &str, impl_files: &Vec<String>) -> (r: String)
    ensures
        r@ == var_section(platform@, impl_files.deep_view()),
{
    let ghost all = impl_files.deep_view();
    let ghost entry = |j: int| "'implementations/"@ + platform@ + "/"@ + name_of(all[j]) + "'"@;
    let mut quoted: Vec<String> = Vec::new();
    assert(quoted.deep_view() =~= Seq::new(0, entry));
    let mut i: usize = 0;
    while i < impl_files.len()
        invariant
            i <= impl_files@.len(),
            all == impl_files.deep_view(),
            entry == (|j: int|
                "'implementations/"@ + platform@ + "/"@ + name_of(all[j]) + "'"@),
            quoted.deep_view() == Seq::new(i as nat, entry),
        decreases impl_files@.len() - i,
    {
        let mut q = "'implementations/".to_owned();
        q.append(platform);
        q.append("/");
        q.append(path_name(impl_files[i].as_str()));
        q.append("'");
        add_item(&mut quoted, q);
        assert(quoted.deep_view() =~= Seq::new((i + 1) as nat, entry));
        i = i + 1;
    }
    assert(quoted.deep_view() =~= quoted_entries(platform@, all));
    let mut s = "hal_impl_".to_owned();
    s.append(platform);
    s.append("_sources = files(");
    s.append(join(&quoted, ", ").as_str());
    s.append(")");
    s
}

// ---------------------------------------------------------------------------
// The plan
// ---------------------------------------------------------------------------

/// The source names among the first `n`, by any extension or by the two of an
/// implementation.
pub open spec fn sources_upto(names: Seq<Seq<char>>, any: bool, n: int) -> Seq<Seq<char>>
    decreases n,
{
    if n <= 0 {
        Seq::empty()
    } else {
        let done = sources_upto(names, any, n - 1);
        if (if any {
            is_any_source(names[n - 1])
        } else {
            is_source(names[n - 1])
        }) {
            done.push(names[n - 1])
        } else {
            done
        }
    }
}

/// The source names of a directory.
pub open spec fn sources_in(t: ProjectTreeView, dir: Seq<char>, any: bool) -> Seq<Seq<char>> {
    sources_upto(listing(t, dir), any, listing(t, dir).len() as int)
}

fn list_sources(tree: &ProjectTree, dir: &str, any: bool) -> (r: Vec<String>)
    ensures
        r.deep_view() == sources_in(tree.deep_view(), dir@, any),
{
    let names = list_dir(tree, dir);
    let mut out: Vec<String> = Vec::new();
    assert(out.deep_view() =~= Seq::empty());
    let mut i: usize = 0;
    while i < names.len()
        invariant
            i <= names@.len(),
            out.deep_view() == sources_upto(names.deep_view(), any, i as int),
        decreases names@.len() - i,
    {
        let wanted = if any {
            names_any_source(names[i].as_str())
        } else {
            names_source(names[i].as_str())
        };
        if wanted {
            add_item(&mut out, names[i].clone());
        }
        i = i + 1;
    }
    out
}

/// The same names below one directory and below another.
pub open spec fn relocated(from: Seq<char>, to: Seq<char>, names: Seq<Seq<char>>) -> Seq<(
    Seq<char>,
    Seq<char>,
)> {
    Seq::new(names.len(), |i: int| (path_join(from, names[i]), path_join(to, names[i])))
}

fn relocate(pairs: &mut Vec<(String, String)>, from: &str, to: &str, names: &Vec<String>)
    ensures
        final(pairs).deep_view() == old(pairs).deep_view() + relocated(
            from@,
            to@,
            names.deep_view(),
        ),
{
    let ghost start = pairs.deep_view();
    let ghost all = names.deep_view();
    let ghost one = |j: int| (path_join(from@, all[j]), path_join(to@, all[j]));
    let mut i: usize = 0;
    assert(pairs.deep_view() =~= start + Seq::new(0, one));
    while i < names.len()
        invariant
            i <= names@.len(),
            all == names.deep_view(),
            one == (|j: int| (path_join(from@, all[j]), path_join(to@, all[j]))),
            pairs.deep_view() == start + Seq::new(i as nat, one),
        decreases names@.len() - i,
    {
        let name = names[i].as_str();
        add_item(pairs, (join_path(from, name), join_path(to, name)));
        assert(pairs.deep_view() =~= start + Seq::new((i + 1) as nat, one));
        i = i + 1;
    }
    assert(Seq::new(all.len(), one) =~= relocated(from@, to@, all));
}

/// Where the sources of the first `n` platforms stand and where they belong.
pub open spec fn impl_pairs_upto(t: ProjectTreeView, dirs: Seq<Seq<char>>, n: int) -> Seq<(
    Seq<char>,
    Seq<char>,
)>
    decreases n,
{
    if n <= 0 {
        Seq::empty()
    } else {
        let hal = path_join(dirs[n - 1], "hal"@);
        impl_pairs_upto(t, dirs, n - 1) + relocated(
            hal,
            path_join("hal/implementations"@, dirs[n - 1]),
            sources_in(t, hal, false),
        )
    }
}

/// Where every misplaced file stands and where it belongs: contracts first,
/// then sources left among them, then the platforms' implementations.
pub open spec fn misplaced(t: ProjectTreeView) -> Seq<(Seq<char>, Seq<char>)> {
    let api = "toolkit/src/hal/api"@;
    relocated(api, "hal/api"@, hpp_names(t, api)) + relocated(
        api,
        "toolkit/src"@,
        sources_in(t, api, true),
    ) + impl_pairs_upto(t, root_dirs(t), root_dirs(t).len() as int)
}

fn find_misplaced(tree: &ProjectTree, dirs: &Vec<String>) -> (r: Vec<(String, String)>)
    requires
        dirs.deep_view() == root_dirs(tree.deep_view()),
    ensures
        r.deep_view() == misplaced(tree.deep_view()),
{
    let ghost t = tree.deep_view();
    let ghost all = dirs.deep_view();
    let api = "toolkit/src/hal/api";
    let mut pairs: Vec<(String, String)> = Vec::new();
    assert(pairs.deep_view() =~= Seq::empty());
    relocate(&mut pairs, api, "hal/api", &hpp_files(tree, api));
    relocate(&mut pairs, api, "toolkit/src", &list_sources(tree, api, true));
    let ghost start = pairs.deep_view();
    assert(start =~= relocated(api@, "hal/api"@, hpp_names(t, api@)) + relocated(
        api@,
        "toolkit/src"@,
        sources_in(t, api@, true),
    ));
    let mut i: usize = 0;
    assert(pairs.deep_view() =~= start + impl_pairs_upto(t, all, 0));
    while i < dirs.len()
        invariant
            i <= dirs@.len(),
            t == tree.deep_view(),
            all == dirs.deep_view(),
            pairs.deep_view() == start + impl_pairs_upto(t, all, i as int),
        decreases dirs@.len() - i,
    {
        let hal = join_path(dirs[i].as_str(), "hal");
        let home = join_path("hal/implementations", dirs[i].as_str());
        let names = list_sources(tree, hal.as_str(), false);
        relocate(&mut pairs, hal.as_str(), home.as_str(), &names);
        assert(pairs.deep_view() =~= start + impl_pairs_upto(t, all, i + 1));
        i = i + 1;
    }
    pairs
}

/// The moves among the first `n` pairs: those whose target is free.
pub open spec fn moves_upto(
    t: ProjectTreeView,
    pairs: Seq<(Seq<char>, Seq<char>)>,
    n: int,
) -> Seq<FileMoveView>
    decreases n,
{
    if n <= 0 {
        Seq::empty()
    } else {
        let done = moves_upto(t, pairs, n - 1);
        if exists_at(t, pairs[n - 1].1) {
            done
        } else {
            done.push(FileMoveView { from: pairs[n - 1].0, to: pairs[n - 1].1 })
        }
    }
}

/// The conflicts among the first `n` pairs: those whose target is taken.
pub open spec fn conflicts_upto(
    t: ProjectTreeView,
    pairs: Seq<(Seq<char>, Seq<char>)>,
    n: int,
) -> Seq<Seq<char>>
    decreases n,
{
    if n <= 0 {
        Seq::empty()
    } else {
        let done = conflicts_upto(t, pairs, n - 1);
        if exists_at(t, pairs[n - 1].1) {
            done.push(pairs[n - 1].1 + " already exists"@)
        } else {
            done
        }
    }
}

fn sort_out(tree: &ProjectTree, pairs: &Vec<(String, String)>) -> (r: (Vec<FileMove>, Vec<String>))
    ensures
        r.0.deep_view() == moves_upto(
            tree.deep_view(),
            pairs.deep_view(),
            pairs.deep_view().len() as int,
        ),
        r.1.deep_view() == conflicts_upto(
            tree.deep_view(),
            pairs.deep_view(),
            pairs.deep_view().len() as int,
        ),
{
    let ghost t = tree.deep_view();
    let ghost all = pairs.deep_view();
    let mut moves: Vec<FileMove> = Vec::new();
    let mut conflicts: Vec<String> = Vec::new();
    assert(moves.deep_view() =~= Seq::empty());
    assert(conflicts.deep_view() =~= Seq::empty());
    let mut i: usize = 0;
    while i < pairs.len()
        invariant
            i <= pairs@.len(),
            t == tree.deep_view(),
            all == pairs.deep_view(),
            moves.deep_view() == moves_upto(t, all, i as int),
            conflicts.deep_view() == conflicts_upto(t, all, i as int),
        decreases pairs@.len() - i,
    {
        assert(all[i as int] == (pairs[i as int].0@, pairs[i as int].1@));
        if tree.has_path(pairs[i].1.as_str()) {
            let mut s = pairs[i].1.clone();
            s.append(" already exists");
            add_item(&mut conflicts, s);
        } else {
            add_item(&mut moves, FileMove { from: pairs[i].0.clone(), to: pairs[i].1.clone() });
        }
        i = i + 1;
    }
    (moves, conflicts)
}

/// The names among the first `n` that are free below a directory.
pub open spec fn free_upto(
    t: ProjectTreeView,
    dir: Seq<char>,
    names: Seq<Seq<char>>,
    n: int,
) -> Seq<Seq<char>>
    decreases n,
{
    if n <= 0 {
        Seq::empty()
    } else {
        let done = free_upto(t, dir, names, n - 1);
        if exists_at(t, path_join(dir, names[n - 1])) {
            done
        } else {
            done.push(names[n - 1])
        }
    }
}

/// The sources of a platform that move.
pub open spec fn moving(t: ProjectTreeView, plat: Seq<char>) -> Seq<Seq<char>> {
    let names = sources_in(t, path_join(plat, "hal"@), false);
    free_upto(t, path_join("hal/implementations"@, plat), names, names.len() as int)
}

fn moving_sources(tree: &ProjectTree, plat: &str) -> (r: Vec<String>)
    ensures
        r.deep_view() == moving(tree.deep_view(), plat@),
{
    let ghost t = tree.deep_view();
    let names = list_sources(tree, join_path(plat, "hal").as_str(), false);
    let dir = join_path("hal/implementations", plat);
    let mut out: Vec<String> = Vec::new();
    assert(out.deep_view() =~= Seq::empty());
    let mut i: usize = 0;
    while i < names.len()
        invariant
            i <= names@.len(),
            t == tree.deep_view(),
            out.deep_view() == free_upto(t, dir@, names.deep_view(), i as int),
        decreases names@.len() - i,
    {
        if !tree.has_path(join_path(dir.as_str(), names[i].as_str()).as_str()) {
            add_item(&mut out, names[i].clone());
        }
        i = i + 1;
    }
    out
}

/// The source lists of the first `n` platforms from which something moves.
pub open spec fn lists_upto(t: ProjectTreeView, dirs: Seq<Seq<char>>, n: int) -> Seq<char>
    decreases n,
{
    if n <= 0 {
        Seq::empty()
    } else {
        let done = lists_upto(t, dirs, n - 1);
        if moving(t, dirs[n - 1]).len() > 0 {
            done + var_section(dirs[n - 1], moving(t, dirs[n - 1])) + "\n"@
        } else {
            done
        }
    }
}

/// What a maintainer is told of the first `n` platforms from which something
/// moves.
pub open spec fn notes_upto(t: ProjectTreeView, dirs: Seq<Seq<char>>, n: int) -> Seq<Seq<char>>
    decreases n,
{
    if n <= 0 {
        Seq::empty()
    } else {
        let done = notes_upto(t, dirs, n - 1);
        if moving(t, dirs[n - 1]).len() > 0 {
            let name = dirs[n - 1];
            done.push(name
                + "meson.build: switch the legacy *_hal_sources list to hal_impl_"@
                + name
                + "_sources (now declared in hal/meson.build)"@)
        } else {
            done
        }
    }
}

/// The central build file that the moves ask for.
pub open spec fn planned_writes(t: ProjectTreeView) -> Seq<WriteFileView> {
    let dirs = root_dirs(t);
    if notes_upto(t, dirs, dirs.len() as int).len() > 0 {
        seq![
            WriteFileView {
                path: "hal/meson.build"@,
                content: lists_upto(t, dirs, dirs.len() as int),
            },
        ]
    } else {
        Seq::empty()
    }
}

fn plan_writes(tree: &ProjectTree, dirs: &Vec<String>) -> (r: (Vec<WriteFile>, Vec<String>))
    requires
        dirs.deep_view() == root_dirs(tree.deep_view()),
    ensures
        r.0.deep_view() == planned_writes(tree.deep_view()),
        r.1.deep_view() == notes_upto(
            tree.deep_view(),
            root_dirs(tree.deep_view()),
            root_dirs(tree.deep_view()).len() as int,
        ),
{
    let ghost t = tree.deep_view();
    let ghost all = dirs.deep_view();
    let mut content = String::new();
    let mut notes: Vec<String> = Vec::new();
    assert(content@ =~= Seq::empty());
    assert(notes.deep_view() =~= Seq::empty());
    let mut i: usize = 0;
    while i < dirs.len()
        invariant
            i <= dirs@.len(),
            t == tree.deep_view(),
            all == dirs.deep_view(),
            content@ == lists_upto(t, all, i as int),
            notes.deep_view() == notes_upto(t, all, i as int),
        decreases dirs@.len() - i,
    {
        let name = dirs[i].as_str();
        let files = moving_sources(tree, name);
        if files.len() > 0 {
            content.append(hal_meson_var_section(name, &files).as_str());
            content.append("\n");
            let mut s = name.to_owned();
            s.append("meson.build: switch the legacy *_hal_sources list to hal_impl_");
            s.append(name);
            s.append("_sources (now declared in hal/meson.build)");
            add_item(&mut notes, s);
        }
        i = i + 1;
    }
    let mut writes: Vec<WriteFile> = Vec::new();
    assert(writes.deep_view() =~= Seq::empty());
    if notes.len() > 0 {
        add_item(&mut writes, WriteFile { path: "hal/meson.build".to_owned(), content });
    }
    assert(writes.deep_view() =~= planned_writes(t));
    (writes, notes)
}

/// The build file pulls in the `hal` directory.
pub open spec fn wires_hal(text: Seq<char>) -> bool {
    has_text(text, "subdir('hal')"@) || has_text(text, "subdir(\"hal\")"@)
}

/// The index behind the line on which the `project(...)` call at `k` ends; `None`
/// where nothing ends that line.
pub open spec fn project_end(text: Seq<char>, k: int) -> Option<int> {
    let last = match paren_from(text, 0, k + 7) {
        Some(c) => c,
        None => k,
    };
    match find_from(text, "\n"@, last) {
        Some(e) => Some(e + 1),
        None => None,
    }
}

/// The build file with the `hal` directory pulled in: after the first
/// `project(...)` call, or at its top.
pub open spec fn with_hal(text: Seq<char>) -> Seq<char> {
    match find_from(text, "project("@, 0) {
        Some(k) => match project_end(text, k) {
            Some(end) => before(text, end) + "subdir('hal')\n"@ + after(text, end),
            None => text + "\nsubdir('hal')\n"@,
        },
        None => "subdir('hal')\n"@ + text,
    }
}

/// Whether the build file pulls in the `hal` directory.
pub fn pulls_in_hal(text: &str) -> (r: bool)
    ensures
        r == wires_hal(text@),
{
    contains(text, "subdir('hal')") || contains(text, "subdir(\"hal\")")
}

/// Pulls the `hal` directory into a build file.
pub fn pull_in_hal(text: &str) -> (r: String)
    ensures
        r@ == with_hal(text@),
{
    proof {
        reveal_strlit("\n");
        reveal_strlit("project(");
    }
    match find(text, "project(") {
        Some(k) => {
            let chars = chars_of(text);
            assert(text@.subrange(k as int, k + 8)[7] == '(');
            let last: usize = match find_paren(&chars, k + 7) {
                Some(c) => c,
                None => k,
            };
            match find_after(text, "\n", last) {
                Some(e) => {
                    let size: usize = text.unicode_len();
                    assert(e < size);
                    let mut s = head_of(text, e + 1).to_owned();
                    s.append("subdir('hal')\n");
                    s.append(tail_of(text, e + 1));
                    s
                },
                None => {
                    let mut s = text.to_owned();
                    s.append("\nsubdir('hal')\n");
                    s
                },
            }
        },
        None => {
            let mut s = "subdir('hal')\n".to_owned();
            s.append(text);
            s
        },
    }
}

/// The platform's build file is to be rewritten.
pub open spec fn rewires(t: ProjectTreeView, plat: Seq<char>) -> bool {
    content_at(t, path_join(plat, "meson.build"@)) matches Some(c) && legacy_wiring(c)
        && rewritten_meson(plat, c) != c
}

/// The edits of the first `n` platforms' build files.
pub open spec fn rewires_upto(t: ProjectTreeView, dirs: Seq<Seq<char>>, n: int) -> Seq<
    BuildFileEditView,
>
    decreases n,
{
    if n <= 0 {
        Seq::empty()
    } else {
        let done = rewires_upto(t, dirs, n - 1);
        if rewires(t, dirs[n - 1]) {
            let text = content_at(t, path_join(dirs[n - 1], "meson.build"@))->0;
            done.push(
                BuildFileEditView {
                    file: dirs[n - 1] + "/meson.build"@,
                    before: text,
                    after: rewritten_meson(dirs[n - 1], text),
                },
            )
        } else {
            done
        }
    }
}

/// Why the first `n` platforms' build files are rewritten.
pub open spec fn rewire_reasons_upto(t: ProjectTreeView, dirs: Seq<Seq<char>>, n: int) -> Seq<
    Seq<char>,
>
    decreases n,
{
    if n <= 0 {
        Seq::empty()
    } else {
        let done = rewire_reasons_upto(t, dirs, n - 1);
        if rewires(t, dirs[n - 1]) {
            done.push("stale "@ + dirs[n - 1] + " meson.build rewired"@)
        } else {
            done
        }
    }
}

/// The edit of the top build file, where it does not pull in `hal` yet.
pub open spec fn top_edit(t: ProjectTreeView) -> Seq<BuildFileEditView> {
    match content_at(t, "meson.build"@) {
        Some(c) => if wires_hal(c) {
            Seq::empty()
        } else {
            seq![BuildFileEditView { file: "meson.build"@, before: c, after: with_hal(c) }]
        },
        None => Seq::empty(),
    }
}

fn plan_edits(tree: &ProjectTree, dirs: &Vec<String>) -> (r: (Vec<BuildFileEdit>, Vec<String>))
    requires
        dirs.deep_view() == root_dirs(tree.deep_view()),
    ensures
        r.0.deep_view() == top_edit(tree.deep_view()) + rewires_upto(
            tree.deep_view(),
            root_dirs(tree.deep_view()),
            root_dirs(tree.deep_view()).len() as int,
        ),
        r.1.deep_view() == rewire_reasons_upto(
            tree.deep_view(),
            root_dirs(tree.deep_view()),
            root_dirs(tree.deep_view()).len() as int,
        ),
{
    let ghost t = tree.deep_view();
    let ghost all = dirs.deep_view();
    let mut edits: Vec<BuildFileEdit> = Vec::new();
    let mut reasons: Vec<String> = Vec::new();
    assert(edits.deep_view() =~= Seq::empty());
    assert(reasons.deep_view() =~= Seq::empty());
    if let Some(text) = tree.read("meson.build") {
        if !pulls_in_hal(text.as_str()) {
            let after = pull_in_hal(text.as_str());
            add_item(&mut edits, BuildFileEdit { file: "meson.build".to_owned(), before: text, after });
        }
    }
    assert(edits.deep_view() =~= top_edit(t) + rewires_upto(t, all, 0));
    let mut i: usize = 0;
    while i < dirs.len()
        invariant
            i <= dirs@.len(),
            t == tree.deep_view(),
            all == dirs.deep_view(),
            edits.deep_view() == top_edit(t) + rewires_upto(t, all, i as int),
            reasons.deep_view() == rewire_reasons_upto(t, all, i as int),
        decreases dirs@.len() - i,
    {
        let name = dirs[i].as_str();
        let text = tree.read(join_path(name, "meson.build").as_str());
        if platform_meson_has_legacy_hal(&text) {
            if let Some(text) = text {
                let rewritten = rewrite_platform_meson(name, text.as_str());
                if !same(rewritten.as_str(), text.as_str()) {
                    let mut file = name.to_owned();
                    file.append("/meson.build");
                    add_item(&mut edits, BuildFileEdit { file, before: text, after: rewritten });
                    let mut s = "stale ".to_owned();
                    s.append(name);
                    s.append(" meson.build rewired");
                    add_item(&mut reasons, s);
                }
            }
        }
        assert(edits.deep_view() =~= top_edit(t) + rewires_upto(t, all, i + 1));
        i = i + 1;
    }
    (edits, reasons)
}

/// The header paths below a directory, each behind a label.
pub open spec fn header_reasons(
    t: ProjectTreeView,
    label: Seq<char>,
    dir: Seq<char>,
) -> Seq<Seq<char>> {
    Seq::new(
        hpp_names(t, dir).len(),
        |i: int| label + full_path(t.root, path_join(dir, hpp_names(t, dir)[i])),
    )
}

fn note_headers(tree: &ProjectTree, reasons: &mut Vec<String>, label: &str, dir: &str)
    ensures
        final(reasons).deep_view() == old(reasons).deep_view() + header_reasons(
            tree.deep_view(),
            label@,
            dir@,
        ),
{
    let ghost t = tree.deep_view();
    let ghost start = reasons.deep_view();
    let names = hpp_files(tree, dir);
    let ghost all = names.deep_view();
    let ghost one = |j: int| label@ + full_path(t.root, path_join(dir@, all[j]));
    let mut i: usize = 0;
    assert(reasons.deep_view() =~= start + Seq::new(0, one));
    while i < names.len()
        invariant
            i <= names@.len(),
            t == tree.deep_view(),
            all == names.deep_view(),
            one == (|j: int| label@ + full_path(t.root, path_join(dir@, all[j]))),
            reasons.deep_view() == start + Seq::new(i as nat, one),
        decreases names@.len() - i,
    {
        let mut s = label.to_owned();
        let path = join_path(dir, names[i].as_str());
        s.append(path_from_root(tree.root.as_str(), path.as_str()).as_str());
        add_item(reasons, s);
        assert(reasons.deep_view() =~= start + Seq::new((i + 1) as nat, one));
        i = i + 1;
    }
    assert(Seq::new(all.len(), one) =~= header_reasons(t, label@, dir@));
}

/// The first `n` directories at the root that have one named `hal` of their own.
pub open spec fn impl_reasons_upto(t: ProjectTreeView, dirs: Seq<Seq<char>>, n: int) -> Seq<
    Seq<char>,
>
    decreases n,
{
    if n <= 0 {
        Seq::empty()
    } else {
        let done = impl_reasons_upto(t, dirs, n - 1);
        if dir_at(t, path_join(dirs[n - 1], "hal"@)) {
            done.push("legacy impls: "@ + dirs[n - 1] + "/hal/"@)
        } else {
            done
        }
    }
}

/// The paths that decided the layout.
pub open spec fn layout_reasons(t: ProjectTreeView) -> Seq<Seq<char>> {
    header_reasons(t, "canonical contracts: "@, "hal/api"@) + (if dir_at(t, "hal/implementations"@) {
        seq!["canonical impls: hal/implementations/"@]
    } else {
        Seq::empty()
    }) + header_reasons(t, "legacy contracts: "@, "toolkit/src/hal/api"@) + impl_reasons_upto(
        t,
        root_dirs(t),
        root_dirs(t).len() as int,
    )
}

fn list_reasons(tree: &ProjectTree, dirs: &Vec<String>) -> (r: Vec<String>)
    requires
        dirs.deep_view() == root_dirs(tree.deep_view()),
    ensures
        r.deep_view() == layout_reasons(tree.deep_view()),
{
    let ghost t = tree.deep_view();
    let ghost all = dirs.deep_view();
    let mut reasons: Vec<String> = Vec::new();
    assert(reasons.deep_view() =~= Seq::empty());
    note_headers(tree, &mut reasons, "canonical contracts: ", "hal/api");
    let ghost first = header_reasons(t, "canonical contracts: "@, "hal/api"@);
    assert(reasons.deep_view() =~= first);
    let ghost second = if dir_at(t, "hal/implementations"@) {
        seq!["canonical impls: hal/implementations/"@]
    } else {
        Seq::empty()
    };
    if tree.is_dir("hal/implementations") {
        add_item(&mut reasons, "canonical impls: hal/implementations/".to_owned());
    }
    assert(reasons.deep_view() =~= first + second);
    note_headers(tree, &mut reasons, "legacy contracts: ", "toolkit/src/hal/api");
    let ghost start = reasons.deep_view();
    assert(start =~= start + impl_reasons_upto(t, all, 0));
    let mut i: usize = 0;
    while i < dirs.len()
        invariant
            i <= dirs@.len(),
            t == tree.deep_view(),
            all == dirs.deep_view(),
            reasons.deep_view() == start + impl_reasons_upto(t, all, i as int),
        decreases dirs@.len() - i,
    {
        let name = dirs[i].as_str();
        if tree.is_dir(join_path(name, "hal").as_str()) {
            let mut s = "legacy impls: ".to_owned();
            s.append(name);
            s.append("/hal/");
            add_item(&mut reasons, s);
        }
        assert(reasons.deep_view() =~= start + impl_reasons_upto(t, all, i + 1));
        i = i + 1;
    }
    reasons
}

/// The plan of a migration. A canonical project, and one without any layout,
/// needs none; in the others every misplaced file moves whose target is free,
/// and the build files follow.
pub open spec fn plan_of(t: ProjectTreeView) -> HalMigrationPlanView {
    let layout = layout_of(t);
    let dirs = root_dirs(t);
    let n = dirs.len() as int;
    let idle = HalMigrationPlanView {
        layout,
        layout_name: layout.name(),
        moves: Seq::empty(),
        write_files: Seq::empty(),
        build_file_edits: Seq::empty(),
        conflicts: Seq::empty(),
        reasons: layout_reasons(t),
        can_apply: false,
        notes: Seq::empty(),
    };
    match layout {
        HalLayout::Canonical => HalMigrationPlanView {
            notes: seq!["Project is already in the canonical hal/ layout."@],
            ..idle
        },
        HalLayout::Absent => HalMigrationPlanView {
            notes: seq!["No HAL layout detected — nothing to migrate."@],
            ..idle
        },
        _ => {
            let pairs = misplaced(t);
            let moves = moves_upto(t, pairs, pairs.len() as int);
            let conflicts = conflicts_upto(t, pairs, pairs.len() as int);
            let writes = planned_writes(t);
            HalMigrationPlanView {
                moves,
                conflicts,
                write_files: writes,
                build_file_edits: top_edit(t) + rewires_upto(t, dirs, n),
                reasons: layout_reasons(t) + rewire_reasons_upto(t, dirs, n),
                can_apply: conflicts.len() == 0 && moves.len() > 0,
                notes: (if layout == HalLayout::Mixed {
                    seq!["Both layouts present — only the legacy files will move."@]
                } else {
                    Seq::empty()
                }) + notes_upto(t, dirs, n) + (if moves.len() == 0 && writes.len() == 0 {
                    seq!["Nothing to migrate."@]
                } else {
                    Seq::empty()
                }),
                ..idle
            }
        },
    }
}

/// Something of the project is in the legacy layout.
pub open spec fn has_legacy_files(t: ProjectTreeView) -> bool {
    layout_of(t) == HalLayout::Legacy || layout_of(t) == HalLayout::Mixed
}

/// Plans a migration to the canonical layout. Nothing is changed. Where there is
/// something to migrate, it is an error that the project's root could not be listed.
pub fn migrate_hal_plan(tree: &ProjectTree, root_listed: bool) -> (r: Result<HalMigrationPlan, String>)
    ensures
        (match r {
            Ok(p) => (root_listed || !has_legacy_files(tree.deep_view())) && p.deep_view() == plan_of(
                tree.deep_view(),
            ),
            Err(e) => !root_listed && has_legacy_files(tree.deep_view()) && e@
                == "Cannot read project root"@,
        }),
{
    let ghost t = tree.deep_view();
    let layout = detect_hal_layout(tree);
    if !root_listed && (layout == HalLayout::Legacy || layout == HalLayout::Mixed) {
        return Err("Cannot read project root".to_owned());
    }
    let dirs = list_root_dirs(tree);
    let mut reasons = list_reasons(tree, &dirs);
    let mut notes: Vec<String> = Vec::new();
    assert(notes.deep_view() =~= Seq::empty());
    let mut moves: Vec<FileMove> = Vec::new();
    let mut conflicts: Vec<String> = Vec::new();
    let mut write_files: Vec<WriteFile> = Vec::new();
    let mut build_file_edits: Vec<BuildFileEdit> = Vec::new();
    assert(moves.deep_view() =~= Seq::empty());
    assert(conflicts.deep_view() =~= Seq::empty());
    assert(write_files.deep_view() =~= Seq::empty());
    assert(build_file_edits.deep_view() =~= Seq::empty());
    let mut can_apply = false;
    if layout == HalLayout::Canonical {
        add_item(&mut notes, "Project is already in the canonical hal/ layout.".to_owned());
    } else if layout == HalLayout::Absent {
        add_item(&mut notes, "No HAL layout detected — nothing to migrate.".to_owned());
    } else {
        if layout == HalLayout::Mixed {
            add_item(
                &mut notes,
                "Both layouts present — only the legacy files will move.".to_owned(),
            );
        }
        let pairs = find_misplaced(tree, &dirs);
        let sorted_out = sort_out(tree, &pairs);
        moves = sorted_out.0;
        conflicts = sorted_out.1;
        let (writes, more) = plan_writes(tree, &dirs);
        write_files = writes;
        add_items(&mut notes, more);
        let (edits, why) = plan_edits(tree, &dirs);
        build_file_edits = edits;
        add_items(&mut reasons, why);
        can_apply = conflicts.len() == 0 && moves.len() > 0;
        if moves.len() == 0 && write_files.len() == 0 {
            add_item(&mut notes, "Nothing to migrate.".to_owned());
        }
    }
    let plan = HalMigrationPlan {
        layout,
        layout_name: layout.as_str().to_owned(),
        moves,
        write_files,
        build_file_edits,
        conflicts,
        reasons,
        can_apply,
        notes,
    };
    assert(plan.deep_view() =~= plan_of(t));
    Ok(plan)
}

// ---------------------------------------------------------------------------
// Carrying a plan out
// ---------------------------------------------------------------------------

/// What is done next for one planned move.
#[derive(Debug, Clone, Copy, PartialEq, Eq, Structural)]
pub enum MoveStep {
    /// See whether the source is there.
    CheckSource,
    /// Make the target's directory.
    MakeParent,
    /// See whether the target is free.
    CheckTarget,
    /// Rename the file.
    Rename,
    /// Nothing: the move was made or given up.
    Done,
}

/// What is done after a step that succeeded.
pub open spec fn step_after(step: MoveStep) -> MoveStep {
    match step {
        MoveStep::CheckSource => MoveStep::MakeParent,
        MoveStep::MakeParent => MoveStep::CheckTarget,
        MoveStep::CheckTarget => MoveStep::Rename,
        _ => MoveStep::Done,
    }
}

/// Why a move was given up at a step.
pub open spec fn move_error(
    root: Seq<char>,
    m: FileMoveView,
    step: MoveStep,
    detail: Seq<char>,
) -> Seq<char> {
    match step {
        MoveStep::CheckSource => "missing source "@ + m.from,
        MoveStep::MakeParent => "mkdir "@ + (if parent_of(m.to).len() == 0 {
            root
        } else {
            full_path(root, parent_of(m.to))
        }) + ": "@ + detail,
        MoveStep::CheckTarget => "conflict: "@ + m.to + " already exists"@,
        _ => "move "@ + m.from + ": "@ + detail,
    }
}

/// The record of a migration after a step of a move.
pub open spec fn after_step(
    result: MigrationResultView,
    root: Seq<char>,
    m: FileMoveView,
    step: MoveStep,
    failure: Option<Seq<char>>,
) -> MigrationResultView {
    match failure {
        Some(detail) => MigrationResultView {
            errors: result.errors.push(move_error(root, m, step, detail)),
            ..result
        },
        None => if step == MoveStep::Rename {
            MigrationResultView {
                applied_moves: result.applied_moves.push(m.from + " -> "@ + m.to),
                ..result
            }
        } else {
            result
        },
    }
}

/// Takes note of how a step of a move ended, `None` where it succeeded, and
/// says what is done next. A move is given up at its first failure.
pub fn advance_move(
    result: &mut MigrationResult,
    root: &str,
    m: &FileMove,
    step: MoveStep,
    failure: &Option<String>,
) -> (r: MoveStep)
    requires
        step != MoveStep::Done,
    ensures
        final(result).deep_view() == after_step(
            old(result).deep_view(),
            root@,
            m.deep_view(),
            step,
            failure.deep_view(),
        ),
        r == (if failure is Some {
            MoveStep::Done
        } else {
            step_after(step)
        }),
{
    match failure {
        Some(detail) => {
            let mut s = String::new();
            assert(s@ =~= Seq::empty());
            match step {
                MoveStep::CheckSource => {
                    s = "missing source ".to_owned();
                    s.append(m.from.as_str());
                },
                MoveStep::MakeParent => {
                    s = "mkdir ".to_owned();
                    let parent = parent_path(m.to.as_str());
                    if parent.unicode_len() == 0 {
                        s.append(root);
                    } else {
                        s.append(path_from_root(root, parent).as_str());
                    }
                    s.append(": ");
                    s.append(detail.as_str());
                },
                MoveStep::CheckTarget => {
                    s = "conflict: ".to_owned();
                    s.append(m.to.as_str());
                    s.append(" already exists");
                },
                _ => {
                    s = "move ".to_owned();
                    s.append(m.from.as_str());
                    s.append(": ");
                    s.append(detail.as_str());
                },
            }
            add_item(&mut result.errors, s);
            MoveStep::Done
        },
        None => match step {
            MoveStep::CheckSource => MoveStep::MakeParent,
            MoveStep::MakeParent => MoveStep::CheckTarget,
            MoveStep::CheckTarget => MoveStep::Rename,
            _ => {
                let mut s = m.from.clone();
                s.append(" -> ");
                s.append(m.to.as_str());
                add_item(&mut result.applied_moves, s);
                MoveStep::Done
            },
        },
    }
}

/// Takes note of how a planned write ended.
pub fn record_write(result: &mut MigrationResult, w: &WriteFile, failure: &Option<String>)
    ensures
        final(result).deep_view() == (match failure.deep_view() {
            None => MigrationResultView {
                written_files: old(result).deep_view().written_files.push(w.path@),
                ..old(result).deep_view()
            },
            Some(detail) => MigrationResultView {
                errors: old(result).deep_view().errors.push(
                    "write "@ + w.path@ + ": "@ + detail,
                ),
                ..old(result).deep_view()
            },
        }),
{
    match failure {
        None => add_item(&mut result.written_files, w.path.clone()),
        Some(detail) => {
            let mut s = "write ".to_owned();
            s.append(w.path.as_str());
            s.append(": ");
            s.append(detail.as_str());
            add_item(&mut result.errors, s);
        },
    }
}

/// Decides whether an edit is made, from the text that the file has now. It is
/// made only where that is still the text that was planned for.
pub fn decide_edit(
    result: &mut MigrationResult,
    edit: &BuildFileEdit,
    current: &Result<String, String>,
) -> (r: bool)
    ensures
        r == (current matches Ok(c) && c@ == edit.before@),
        final(result).deep_view() == (match current {
            Ok(c) => if c@ == edit.before@ {
                old(result).deep_view()
            } else {
                MigrationResultView {
                    errors: old(result).deep_view().errors.push(
                        "edit "@ + edit.file@ + ": file changed since plan"@,
                    ),
                    ..old(result).deep_view()
                }
            },
            Err(e) => MigrationResultView {
                errors: old(result).deep_view().errors.push("read "@ + edit.file@ + ": "@ + e@),
                ..old(result).deep_view()
            },
        }),
{
    match current {
        Ok(c) => if same(c.as_str(), edit.before.as_str()) {
            true
        } else {
            let mut s = "edit ".to_owned();
            s.append(edit.file.as_str());
            s.append(": file changed since plan");
            add_item(&mut result.errors, s);
            false
        },
        Err(e) => {
            let mut s = "read ".to_owned();
            s.append(edit.file.as_str());
            s.append(": ");
            s.append(e.as_str());
            add_item(&mut result.errors, s);
            false
        },
    }
}

/// Takes note of how an edit ended.
pub fn record_edit(result: &mut MigrationResult, edit: &BuildFileEdit, failure: &Option<String>)
    ensures
        final(result).deep_view() == (match failure.deep_view() {
            None => MigrationResultView {
                applied_edits: old(result).deep_view().applied_edits.push(edit.file@),
                ..old(result).deep_view()
            },
            Some(detail) => MigrationResultView {
                errors: old(result).deep_view().errors.push(
                    "edit "@ + edit.file@ + ": "@ + detail,
                ),
                ..old(result).deep_view()
            },
        }),
{
    match failure {
        None => add_item(&mut result.applied_edits, edit.file.clone()),
        Some(detail) => {
            let mut s = "edit ".to_owned();
            s.append(edit.file.as_str());
            s.append(": ");
            s.append(detail.as_str());
            add_item(&mut result.errors, s);
        },
    }
}

/// Takes note of a directory that was removed.
pub fn record_removed(result: &mut MigrationResult, dir: &str)
    ensures
        final(result).deep_view() == (MigrationResultView {
            cleanup: old(result).deep_view().cleanup.push(dir@),
            ..old(result).deep_view()
        }),
{
    add_item(&mut result.cleanup, dir.to_owned());
}

/// The directories that a migration may leave empty, in the order in which they
/// are removed.
pub open spec fn legacy_dirs(t: ProjectTreeView) -> Seq<Seq<char>> {
    Seq::new(root_dirs(t).len(), |i: int| path_join(root_dirs(t)[i], "hal"@)).push(
        "toolkit/src/hal/api"@,
    ).push("toolkit/src/hal"@)
}

/// The directories that a migration may leave empty.
pub fn list_legacy_dirs(tree: &ProjectTree) -> (r: Vec<String>)
    ensures
        r.deep_view() == legacy_dirs(tree.deep_view()),
{
    let dirs = list_root_dirs(tree);
    let ghost all = dirs.deep_view();
    let ghost one = |i: int| path_join(all[i], "hal"@);
    let mut out: Vec<String> = Vec::new();
    assert(out.deep_view() =~= Seq::new(0, one));
    let mut i: usize = 0;
    while i < dirs.len()
        invariant
            i <= dirs@.len(),
            all == dirs.deep_view(),
            one == (|i: int| path_join(all[i], "hal"@)),
            out.deep_view() == Seq::new(i as nat, one),
        decreases dirs@.len() - i,
    {
        add_item(&mut out, join_path(dirs[i].as_str(), "hal"));
        assert(out.deep_view() =~= Seq::new((i + 1) as nat, one));
        i = i + 1;
    }
    add_item(&mut out, "toolkit/src/hal/api".to_owned());
    add_item(&mut out, "toolkit/src/hal".to_owned());
    assert(out.deep_view() =~= legacy_dirs(tree.deep_view()));
    out
}

// ---------------------------------------------------------------------------
// The structural check
// ---------------------------------------------------------------------------

/// The directory holds sources, its own or implementations below `hal`.
pub open spec fn has_sources(t: ProjectTreeView, dir: Seq<char>) -> bool {
    sources_in(t, dir, true).len() > 0 || sources_in(t, path_join(dir, "hal"@), true).len() > 0
}

fn holds_sources(tree: &ProjectTree, dir: &str) -> (r: bool)
    ensures
        r == has_sources(tree.deep_view(), dir@),
{
    list_sources(tree, dir, true).len() > 0 || list_sources(tree, join_path(dir, "hal").as_str(), true).len() > 0
}

/// The platforms among the first `n` names below `hal/implementations`.
pub open spec fn canonical_platforms_upto(
    t: ProjectTreeView,
    names: Seq<Seq<char>>,
    n: int,
) -> Seq<Seq<char>>
    decreases n,
{
    if n <= 0 {
        Seq::empty()
    } else {
        let done = canonical_platforms_upto(t, names, n - 1);
        let name = names[n - 1];
        if dir_at(t, path_join("hal/implementations"@, name)) && !begins(name, "."@)
            && !done.contains(name) {
            done.push(name)
        } else {
            done
        }
    }
}

/// The platforms found so far and those among the first `n` directories at the
/// root that hold sources.
pub open spec fn target_platforms_upto(
    t: ProjectTreeView,
    first: Seq<Seq<char>>,
    dirs: Seq<Seq<char>>,
    n: int,
) -> Seq<Seq<char>>
    decreases n,
{
    if n <= 0 {
        first
    } else {
        let done = target_platforms_upto(t, first, dirs, n - 1);
        if !done.contains(dirs[n - 1]) && has_sources(t, dirs[n - 1]) {
            done.push(dirs[n - 1])
        } else {
            done
        }
    }
}

/// The platforms of a project: those with implementations in the canonical
/// place, then the directories at the root that hold sources.
pub open spec fn target_platforms(t: ProjectTreeView) -> Seq<Seq<char>> {
    let names = listing(t, "hal/implementations"@);
    target_platforms_upto(
        t,
        canonical_platforms_upto(t, names, names.len() as int),
        root_dirs(t),
        root_dirs(t).len() as int,
    )
}

/// The platforms of a project.
pub fn top_level_platforms(tree: &ProjectTree) -> (r: Vec<String>)
    ensures
        r.deep_view() == target_platforms(tree.deep_view()),
{
    let ghost t = tree.deep_view();
    let names = list_dir(tree, "hal/implementations");
    let mut out: Vec<String> = Vec::new();
    assert(out.deep_view() =~= Seq::empty());
    let mut i: usize = 0;
    while i < names.len()
        invariant
            i <= names@.len(),
            t == tree.deep_view(),
            out.deep_view() == canonical_platforms_upto(t, names.deep_view(), i as int),
        decreases names@.len() - i,
    {
        let name = names[i].as_str();
        if tree.is_dir(join_path("hal/implementations", name).as_str()) && !starts_with(name, ".")
            && !list_has(&out, name) {
            add_item(&mut out, names[i].clone());
        }
        i = i + 1;
    }
    let ghost first = out.deep_view();
    let dirs = list_root_dirs(tree);
    let mut i: usize = 0;
    while i < dirs.len()
        invariant
            i <= dirs@.len(),
            t == tree.deep_view(),
            out.deep_view() == target_platforms_upto(t, first, dirs.deep_view(), i as int),
        decreases dirs@.len() - i,
    {
        if !list_has(&out, dirs[i].as_str()) && holds_sources(tree, dirs[i].as_str()) {
            add_item(&mut out, dirs[i].clone());
        }
        i = i + 1;
    }
    out
}

/// The directory of the contracts in a layout.
pub open spec fn contracts_dir(layout: HalLayout) -> Seq<char> {
    match layout {
        HalLayout::Legacy | HalLayout::Mixed => "toolkit/src/hal/api"@,
        _ => "hal/api"@,
    }
}

/// The directory of a platform's implementations in a layout.
pub open spec fn impl_dir(layout: HalLayout, plat: Seq<char>) -> Seq<char> {
    match layout {
        HalLayout::Legacy | HalLayout::Mixed => path_join(plat, "hal"@),
        _ => path_join("hal/implementations"@, plat),
    }
}

/// The interfaces among the first `n` headers: those that are contracts.
pub open spec fn interfaces_upto(
    t: ProjectTreeView,
    dir: Seq<char>,
    names: Seq<Seq<char>>,
    n: int,
) -> Seq<Seq<char>>
    decreases n,
{
    if n <= 0 {
        Seq::empty()
    } else {
        let done = interfaces_upto(t, dir, names, n - 1);
        if header_kind(content_at(t, path_join(dir, names[n - 1]))) == HalHeaderKind::Contract {
            done.push(stem_of(names[n - 1]))
        } else {
            done
        }
    }
}

/// The interfaces whose contracts stand in a directory.
pub open spec fn interfaces_in(t: ProjectTreeView, dir: Seq<char>) -> Seq<Seq<char>> {
    interfaces_upto(t, dir, hpp_names(t, dir), hpp_names(t, dir).len() as int)
}

/// The interfaces of a project: those of the directory that its layout has for
/// contracts; where both layouts are present, those of both directories, each
/// once.
pub open spec fn interfaces_of(t: ProjectTreeView) -> Seq<Seq<char>> {
    match layout_of(t) {
        HalLayout::Mixed => distinct(
            interfaces_in(t, "hal/api"@) + interfaces_in(t, "toolkit/src/hal/api"@),
        ),
        layout => interfaces_in(t, contracts_dir(layout)),
    }
}

/// The misplaced headers among the first `n`: neither a contract nor data.
pub open spec fn stray_headers_upto(
    t: ProjectTreeView,
    dir: Seq<char>,
    names: Seq<Seq<char>>,
    n: int,
) -> Seq<HalIssueView>
    decreases n,
{
    if n <= 0 {
        Seq::empty()
    } else {
        let done = stray_headers_upto(t, dir, names, n - 1);
        let name = names[n - 1];
        let kind = header_kind(content_at(t, path_join(dir, name)));
        if kind == HalHeaderKind::Contract || kind == HalHeaderKind::DataOnly {
            done
        } else {
            done.push(
                HalIssueView {
                    severity: "warning"@,
                    title: "Non-contract header in HAL api dir"@,
                    path: path_join(dir, name),
                    suggested_fix: name + " has no pure-virtual methods — move it out of the contract dir (hal/api/) or make it an abstract-class contract."@,
                },
            )
        }
    }
}

fn check_headers(tree: &ProjectTree, dir: &str) -> (r: (Vec<String>, Vec<HalIssue>))
    ensures
        r.0.deep_view() == interfaces_in(tree.deep_view(), dir@),
        r.1.deep_view() == stray_headers_upto(
            tree.deep_view(),
            dir@,
            hpp_names(tree.deep_view(), dir@),
            hpp_names(tree.deep_view(), dir@).len() as int,
        ),
{
    let ghost t = tree.deep_view();
    let names = hpp_files(tree, dir);
    let ghost all = names.deep_view();
    let mut interfaces: Vec<String> = Vec::new();
    let mut issues: Vec<HalIssue> = Vec::new();
    assert(interfaces.deep_view() =~= Seq::empty());
    assert(issues.deep_view() =~= Seq::empty());
    let mut i: usize = 0;
    while i < names.len()
        invariant
            i <= names@.len(),
            t == tree.deep_view(),
            all == names.deep_view(),
            interfaces.deep_view() == interfaces_upto(t, dir@, all, i as int),
            issues.deep_view() == stray_headers_upto(t, dir@, all, i as int),
        decreases names@.len() - i,
    {
        let name = names[i].as_str();
        let path = join_path(dir, name);
        match classify_hal_header(&tree.read(path.as_str())) {
            HalHeaderKind::Contract => add_item(&mut interfaces, file_stem(name).to_owned()),
            HalHeaderKind::DataOnly => {},
            _ => {
                let mut fix = name.to_owned();
                fix.append(" has no pure-virtual methods — move it out of the contract dir (hal/api/) or make it an abstract-class contract.");
                let issue = HalIssue {
                    severity: "warning".to_owned(),
                    title: "Non-contract header in HAL api dir".to_owned(),
                    path: path,
                    suggested_fix: fix,
                };
                add_item(&mut issues, issue);
            },
        }
        i = i + 1;
    }
    (interfaces, issues)
}

/// One issue for each source left among the legacy contracts.
pub open spec fn stray_sources(t: ProjectTreeView) -> Seq<HalIssueView> {
    let names = sources_in(t, "toolkit/src/hal/api"@, true);
    Seq::new(
        names.len(),
        |i: int|
            HalIssueView {
                severity: "warning"@,
                title: "Implementation file left in legacy contract dir"@,
                path: path_join("toolkit/src/hal/api"@, names[i]),
                suggested_fix: "Move it under hal/implementations/<plat>/ (or remove it) — an impl is not a contract header."@,
            },
    )
}

fn check_sources(tree: &ProjectTree, issues: &mut Vec<HalIssue>)
    ensures
        final(issues).deep_view() == old(issues).deep_view() + stray_sources(tree.deep_view()),
{
    let ghost t = tree.deep_view();
    let ghost start = issues.deep_view();
    let names = list_sources(tree, "toolkit/src/hal/api", true);
    let ghost all = stray_sources(t);
    let mut i: usize = 0;
    assert(issues.deep_view() =~= start + all.take(0));
    while i < names.len()
        invariant
            i <= names@.len(),
            all == stray_sources(t),
            names.deep_view() == sources_in(t, "toolkit/src/hal/api"@, true),
            issues.deep_view() == start + all.take(i as int),
        decreases names@.len() - i,
    {
        let issue = HalIssue {
            severity: "warning".to_owned(),
            title: "Implementation file left in legacy contract dir".to_owned(),
            path: join_path("toolkit/src/hal/api", names[i].as_str()),
            suggested_fix: "Move it under hal/implementations/<plat>/ (or remove it) — an impl is not a contract header.".to_owned(),
        };
        assert(issue.deep_view() == all[i as int]);
        add_item(issues, issue);
        assert(issues.deep_view() =~= start + all.take(i + 1));
        i = i + 1;
    }
    assert(all.take(all.len() as int) =~= all);
}

/// One issue for each of the first `n` platforms without any implementation where
/// the layout has them.
pub open spec fn bare_platforms_upto(
    t: ProjectTreeView,
    layout: HalLayout,
    platforms: Seq<Seq<char>>,
    n: int,
) -> Seq<HalIssueView>
    decreases n,
{
    if n <= 0 {
        Seq::empty()
    } else {
        let done = bare_platforms_upto(t, layout, platforms, n - 1);
        let plat = platforms[n - 1];
        let dir = impl_dir(layout, plat);
        if any_source(listing(t, dir)) {
            done
        } else {
            done.push(
                HalIssueView {
                    severity: "error"@,
                    title: "Missing HAL implementation for platform '"@ + plat + "'"@,
                    path: full_path(t.root, dir),
                    suggested_fix: "Add hal/implementations/"@
                        + plat
                        + "/<stem>_<impl>.cpp (or legacy "@
                        + plat
                        + "hal/) for each interface."@,
                },
            )
        }
    }
}

/// What is wrong with the platforms.
pub open spec fn platform_issues(
    t: ProjectTreeView,
    layout: HalLayout,
    platforms: Seq<Seq<char>>,
) -> Seq<HalIssueView> {
    if platforms.len() == 0 {
        seq![
            HalIssueView {
                severity: "warning"@,
                title: "No platform directories"@,
                path: t.root,
                suggested_fix: "Add per-platform directories (rpi5/, rock3c/, ...) with HAL implementations."@,
            },
        ]
    } else {
        bare_platforms_upto(t, layout, platforms, platforms.len() as int)
    }
}

fn check_platforms(
    tree: &ProjectTree,
    layout: HalLayout,
    platforms: &Vec<String>,
    issues: &mut Vec<HalIssue>,
)
    ensures
        final(issues).deep_view() == old(issues).deep_view() + platform_issues(
            tree.deep_view(),
            layout,
            platforms.deep_view(),
        ),
{
    let ghost t = tree.deep_view();
    let ghost start = issues.deep_view();
    let ghost all = platforms.deep_view();
    if platforms.len() == 0 {
        let issue = HalIssue {
            severity: "warning".to_owned(),
            title: "No platform directories".to_owned(),
            path: tree.root.clone(),
            suggested_fix: "Add per-platform directories (rpi5/, rock3c/, ...) with HAL implementations.".to_owned(),
        };
        add_item(issues, issue);
        assert(issues.deep_view() =~= start + platform_issues(t, layout, all));
        return ;
    }
    let mut i: usize = 0;
    assert(issues.deep_view() =~= start + bare_platforms_upto(t, layout, all, 0));
    while i < platforms.len()
        invariant
            i <= platforms@.len(),
            t == tree.deep_view(),
            all == platforms.deep_view(),
            issues.deep_view() == start + bare_platforms_upto(t, layout, all, i as int),
        decreases platforms@.len() - i,
    {
        let plat = platforms[i].as_str();
        let dir = match layout {
            HalLayout::Legacy | HalLayout::Mixed => join_path(plat, "hal"),
            _ => join_path("hal/implementations", plat),
        };
        if !has_source(&list_dir(tree, dir.as_str())) {
            let mut title = "Missing HAL implementation for platform '".to_owned();
            title.append(plat);
            title.append("'");
            let mut fix = "Add hal/implementations/".to_owned();
            fix.append(plat);
            fix.append("/<stem>_<impl>.cpp (or legacy ");
            fix.append(plat);
            fix.append("hal/) for each interface.");
            let issue = HalIssue {
                severity: "error".to_owned(),
                title: title,
                path: path_from_root(tree.root.as_str(), dir.as_str()),
                suggested_fix: fix,
            };
            add_item(issues, issue);
        }
        assert(issues.deep_view() =~= start + bare_platforms_upto(t, layout, all, i + 1));
        i = i + 1;
    }
}

/// One issue for each of the first `n` platforms that the central build file
/// does not name.
pub open spec fn unwired_upto(
    path: Seq<char>,
    text: Seq<char>,
    platforms: Seq<Seq<char>>,
    n: int,
) -> Seq<HalIssueView>
    decreases n,
{
    if n <= 0 {
        Seq::empty()
    } else {
        let done = unwired_upto(path, text, platforms, n - 1);
        let plat = platforms[n - 1];
        let var = "hal_impl_"@ + plat + "_sources"@;
        if has_text(text, var) {
            done
        } else {
            done.push(
                HalIssueView {
                    severity: "warning"@,
                    title: "Missing "@ + var + " wiring"@,
                    path: path,
                    suggested_fix: "Declare "@
                        + var
                        + " = files('implementations/"@
                        + plat
                        + "/<stem>_<impl>.cpp')."@,
                },
            )
        }
    }
}

/// What is wrong with the central build file. A legacy project has none.
pub open spec fn central_issues(
    t: ProjectTreeView,
    layout: HalLayout,
    platforms: Seq<Seq<char>>,
) -> Seq<HalIssueView> {
    let file = "hal/meson.build"@;
    let path = full_path(t.root, file);
    if layout == HalLayout::Legacy {
        Seq::empty()
    } else if !exists_at(t, file) {
        seq![
            HalIssueView {
                severity: "error"@,
                title: "Missing hal/meson.build"@,
                path: path,
                suggested_fix: "Generate hal/meson.build with hal_impl_<plat>_sources = files('implementations/<plat>/...')."@,
            },
        ]
    } else {
        match content_at(t, file) {
            Some(text) => unwired_upto(path, text, platforms, platforms.len() as int),
            None => Seq::empty(),
        }
    }
}

fn check_central(
    tree: &ProjectTree,
    layout: HalLayout,
    platforms: &Vec<String>,
    issues: &mut Vec<HalIssue>,
)
    ensures
        final(issues).deep_view() == old(issues).deep_view() + central_issues(
            tree.deep_view(),
            layout,
            platforms.deep_view(),
        ),
{
    let ghost t = tree.deep_view();
    let ghost start = issues.deep_view();
    let ghost all = platforms.deep_view();
    let path = path_from_root(tree.root.as_str(), "hal/meson.build");
    if layout == HalLayout::Legacy {
        assert(issues.deep_view() =~= start + central_issues(t, layout, all));
        return ;
    }
    if !tree.has_path("hal/meson.build") {
        let issue = HalIssue {
            severity: "error".to_owned(),
            title: "Missing hal/meson.build".to_owned(),
            path: path,
            suggested_fix: "Generate hal/meson.build with hal_impl_<plat>_sources = files('implementations/<plat>/...').".to_owned(),
        };
        add_item(issues, issue);
        assert(issues.deep_view() =~= start + central_issues(t, layout, all));
        return ;
    }
    if let Some(text) = tree.read("hal/meson.build") {
        let mut i: usize = 0;
        assert(issues.deep_view() =~= start + unwired_upto(path@, text@, all, 0));
        while i < platforms.len()
            invariant
                i <= platforms@.len(),
                all == platforms.deep_view(),
                issues.deep_view() == start + unwired_upto(path@, text@, all, i as int),
            decreases platforms@.len() - i,
        {
            let plat = platforms[i].as_str();
            let mut var = "hal_impl_".to_owned();
            var.append(plat);
            var.append("_sources");
            if !contains(text.as_str(), var.as_str()) {
                let mut title = "Missing ".to_owned();
                title.append(var.as_str());
                title.append(" wiring");
                let mut fix = "Declare ".to_owned();
                fix.append(var.as_str());
                fix.append(" = files('implementations/");
                fix.append(plat);
                fix.append("/<stem>_<impl>.cpp').");
                let issue = HalIssue {
                    severity: "warning".to_owned(),
                    title: title,
                    path: path.clone(),
                    suggested_fix: fix,
                };
                add_item(issues, issue);
            }
            assert(issues.deep_view() =~= start + unwired_upto(path@, text@, all, i + 1));
            i = i + 1;
        }
    }
    assert(issues.deep_view() =~= start + central_issues(t, layout, all));
}

/// What is wrong with the top build file, and what a migration left behind.
pub open spec fn leftover_issues(t: ProjectTreeView, layout: HalLayout) -> Seq<HalIssueView> {
    let top = if layout != HalLayout::Legacy && (content_at(t, "meson.build"@) matches Some(c)
        && !wires_hal(c)) {
        seq![
            HalIssueView {
                severity: "warning"@,
                title: "Top-level meson.build missing subdir('hal')"@,
                path: "meson.build"@,
                suggested_fix: "Add subdir('hal') after project(...)."@,
            },
        ]
    } else {
        Seq::empty()
    };
    let left = if layout == HalLayout::Mixed {
        seq![
            HalIssueView {
                severity: "warning"@,
                title: "Mixed HAL layout"@,
                path: t.root,
                suggested_fix: "Run the HAL migration tool (hal_migrate_plan/hal_migrate_apply) to canonicalise."@,
            },
        ]
    } else if layout == HalLayout::Canonical && exists_at(t, "toolkit/src/hal/api"@) && (dir_at(
        t,
        "toolkit/src/hal/api"@,
    ) || dir_at(t, "hal/api"@)) {
        seq![
            HalIssueView {
                severity: "warning"@,
                title: "Legacy contract dir left behind"@,
                path: "toolkit/src/hal/api"@,
                suggested_fix: "Remove the emptied legacy dir or re-run migrations cleanup."@,
            },
        ]
    } else {
        Seq::empty()
    };
    top + left
}

fn check_leftovers(tree: &ProjectTree, layout: HalLayout, issues: &mut Vec<HalIssue>)
    ensures
        final(issues).deep_view() == old(issues).deep_view() + leftover_issues(
            tree.deep_view(),
            layout,
        ),
{
    let ghost t = tree.deep_view();
    let ghost start = issues.deep_view();
    if layout != HalLayout::Legacy {
        if let Some(text) = tree.read("meson.build") {
            if !pulls_in_hal(text.as_str()) {
                let issue = HalIssue {
                    severity: "warning".to_owned(),
                    title: "Top-level meson.build missing subdir('hal')".to_owned(),
                    path: "meson.build".to_owned(),
                    suggested_fix: "Add subdir('hal') after project(...).".to_owned(),
                };
                add_item(issues, issue);
            }
        }
    }
    if layout == HalLayout::Mixed {
        let issue = HalIssue {
            severity: "warning".to_owned(),
            title: "Mixed HAL layout".to_owned(),
            path: tree.root.clone(),
            suggested_fix: "Run the HAL migration tool (hal_migrate_plan/hal_migrate_apply) to canonicalise.".to_owned(),
        };
        add_item(issues, issue);
    } else if layout == HalLayout::Canonical && tree.has_path("toolkit/src/hal/api") && (tree.is_dir(
        "toolkit/src/hal/api",
    ) || tree.is_dir("hal/api")) {
        let issue = HalIssue {
            severity: "warning".to_owned(),
            title: "Legacy contract dir left behind".to_owned(),
            path: "toolkit/src/hal/api".to_owned(),
            suggested_fix: "Remove the emptied legacy dir or re-run migrations cleanup.".to_owned(),
        };
        add_item(issues, issue);
    }
    assert(issues.deep_view() =~= start + leftover_issues(t, layout));
}

/// Everything that the structural check finds, in order.
pub open spec fn structure_issues(t: ProjectTreeView) -> Seq<HalIssueView> {
    let layout = layout_of(t);
    let dir = contracts_dir(layout);
    let names = hpp_names(t, dir);
    let platforms = target_platforms(t);
    stray_headers_upto(t, dir, names, names.len() as int) + stray_sources(t) + (if interfaces_of(
        t,
    ).len() == 0 {
        seq![
            HalIssueView {
                severity: "error"@,
                title: "No HAL contracts"@,
                path: full_path(t.root, dir),
                suggested_fix: "Create hal/api/<capability>_hal.hpp abstract-class headers (one per hardware capability)."@,
            },
        ]
    } else {
        Seq::empty()
    }) + platform_issues(t, layout, platforms) + central_issues(t, layout, platforms)
        + leftover_issues(t, layout)
}

/// The outcome of the structural check.
pub open spec fn structure_of(t: ProjectTreeView) -> HalSanityReportView {
    HalSanityReportView {
        status: if structure_issues(t).len() == 0 {
            "ok"@
        } else {
            "issues"@
        },
        layout: layout_of(t).name(),
        issues: structure_issues(t),
        platforms: target_platforms(t),
        interfaces: interfaces_of(t),
    }
}

/// Checks that a project's HAL is structurally complete, in either layout, and
/// says how to correct whatever is missing or misplaced.
pub fn hal_sanity_check(tree: &ProjectTree) -> (r: HalSanityReport)
    ensures
        r.deep_view() == structure_of(tree.deep_view()),
{
    let ghost t = tree.deep_view();
    let layout = detect_hal_layout(tree);
    let platforms = top_level_platforms(tree);
    let dir = match layout {
        HalLayout::Legacy | HalLayout::Mixed => "toolkit/src/hal/api",
        _ => "hal/api",
    };
    let (found, mut issues) = check_headers(tree, dir);
    let interfaces = if layout == HalLayout::Mixed {
        let (mut both, _) = check_headers(tree, "hal/api");
        append_texts(&mut both, &found);
        without_repeats(&both)
    } else {
        found
    };
    assert(interfaces.deep_view() == interfaces_of(t));
    check_sources(tree, &mut issues);
    let ghost start = issues.deep_view();
    if interfaces.len() == 0 {
        let issue = HalIssue {
            severity: "error".to_owned(),
            title: "No HAL contracts".to_owned(),
            path: path_from_root(tree.root.as_str(), dir),
            suggested_fix: "Create hal/api/<capability>_hal.hpp abstract-class headers (one per hardware capability).".to_owned(),
        };
        add_item(&mut issues, issue);
        assert(issues.deep_view() =~= start + seq![issues.deep_view().last()]);
    } else {
        assert(issues.deep_view() =~= start + Seq::empty());
    }
    check_platforms(tree, layout, &platforms, &mut issues);
    check_central(tree, layout, &platforms, &mut issues);
    check_leftovers(tree, layout, &mut issues);
    assert(issues.deep_view() == structure_issues(t));
    let status = if issues.len() == 0 {
        "ok"
    } else {
        "issues"
    };
    HalSanityReport {
        status: status.to_owned(),
        layout: layout.as_str().to_owned(),
        issues,
        platforms,
        interfaces,
    }
}

} // verus!
