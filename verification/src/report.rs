//! The HAL documentation report of a project.

use vstd::prelude::*;

use crate::contract::{flat_methods, flatten_methods};
use crate::coverage::{coverage_map, hal_platform_coverage_map, HalInterfaceCoverage, HalInterfaceCoverageView};
use crate::cpp::{
    base_classes, contract_classes, extract_contract_methods_cpp, extract_cpp_base_classes,
    HalContractMethod, HalContractMethodView,
};
use crate::docs::{
    add_prose, copy_hal_doc_tags, doc_on, docs_of, field_docs, find_doc, lone_fields, parse_hal_docs, with_prose,
    HalDoc, HalDocTag, HalDocTagView, HalDocView, HalFieldDoc, HalFieldDocView,
};
use crate::project::{
    file_stem, full_path, headers_in, join_path, path_from_root, path_join, stem_of, ProjectTree,
    ProjectTreeView,
};
use crate::table::{find_key, value_at};
use crate::text::{add_item, add_items, contains, copy_texts, has_text, list_has, same};

verus! {

/// One documented contract method.
#[derive(Debug, PartialEq, Eq)]
pub struct HalMethodDoc {
    pub name: String,
    pub return_type: String,
    pub params: String,
    pub tags: Vec<HalDocTag>,
    pub prose: String,
}

/// What a [`HalMethodDoc`] holds.
#[verifier::ext_equal]
pub struct HalMethodDocView {
    pub name: Seq<char>,
    pub return_type: Seq<char>,
    pub params: Seq<char>,
    pub tags: Seq<HalDocTagView>,
    pub prose: Seq<char>,
}

impl DeepView for HalMethodDoc {
    type V = HalMethodDocView;

    open spec fn deep_view(&self) -> HalMethodDocView {
        HalMethodDocView {
            name: self.name@,
            return_type: self.return_type@,
            params: self.params@,
            tags: self.tags.deep_view(),
            prose: self.prose@,
        }
    }
}

/// One documented data type.
#[derive(Debug, PartialEq, Eq)]
pub struct HalTypeDoc {
    pub name: String,
    /// The path of its header.
    pub header: String,
    pub brief: String,
    pub tags: Vec<HalDocTag>,
    pub prose: String,
    pub fields: Vec<HalFieldDoc>,
}

/// What a [`HalTypeDoc`] holds.
#[verifier::ext_equal]
pub struct HalTypeDocView {
    pub name: Seq<char>,
    pub header: Seq<char>,
    pub brief: Seq<char>,
    pub tags: Seq<HalDocTagView>,
    pub prose: Seq<char>,
    pub fields: Seq<HalFieldDocView>,
}

impl DeepView for HalTypeDoc {
    type V = HalTypeDocView;

    open spec fn deep_view(&self) -> HalTypeDocView {
        HalTypeDocView {
            name: self.name@,
            header: self.header@,
            brief: self.brief@,
            tags: self.tags.deep_view(),
            prose: self.prose@,
            fields: self.fields.deep_view(),
        }
    }
}

/// How far a platform implements one contract.
#[derive(Debug, PartialEq, Eq)]
pub struct HalPlatformDoc {
    pub platform: String,
    pub implemented: bool,
    pub has_impl: bool,
    pub missing: Vec<String>,
    pub drifted: Vec<String>,
}

/// What a [`HalPlatformDoc`] holds.
#[verifier::ext_equal]
pub struct HalPlatformDocView {
    pub platform: Seq<char>,
    pub implemented: bool,
    pub has_impl: bool,
    pub missing: Seq<Seq<char>>,
    pub drifted: Seq<Seq<char>>,
}

impl DeepView for HalPlatformDoc {
    type V = HalPlatformDocView;

    open spec fn deep_view(&self) -> HalPlatformDocView {
        HalPlatformDocView {
            platform: self.platform@,
            implemented: self.implemented,
            has_impl: self.has_impl,
            missing: self.missing.deep_view(),
            drifted: self.drifted.deep_view(),
        }
    }
}

/// The page of one contract.
#[derive(Debug, PartialEq, Eq)]
pub struct HalContractDoc {
    pub stem: String,
    pub class_name: String,
    pub id: String,
    pub brief: String,
    pub tags: Vec<HalDocTag>,
    pub prose: String,
    /// The path of its header.
    pub header: String,
    pub methods: Vec<HalMethodDoc>,
    /// Data types whose names stand in its header.
    pub uses_types: Vec<String>,
    pub platforms: Vec<HalPlatformDoc>,
}

/// What a [`HalContractDoc`] holds.
#[verifier::ext_equal]
pub struct HalContractDocView {
    pub stem: Seq<char>,
    pub class_name: Seq<char>,
    pub id: Seq<char>,
    pub brief: Seq<char>,
    pub tags: Seq<HalDocTagView>,
    pub prose: Seq<char>,
    pub header: Seq<char>,
    pub methods: Seq<HalMethodDocView>,
    pub uses_types: Seq<Seq<char>>,
    pub platforms: Seq<HalPlatformDocView>,
}

impl DeepView for HalContractDoc {
    type V = HalContractDocView;

    open spec fn deep_view(&self) -> HalContractDocView {
        HalContractDocView {
            stem: self.stem@,
            class_name: self.class_name@,
            id: self.id@,
            brief: self.brief@,
            tags: self.tags.deep_view(),
            prose: self.prose@,
            header: self.header@,
            methods: self.methods.deep_view(),
            uses_types: self.uses_types.deep_view(),
            platforms: self.platforms.deep_view(),
        }
    }
}

/// The documentation of a project's contracts and data types.
#[derive(Debug, PartialEq, Eq)]
pub struct HalDocReport {
    pub contracts: Vec<HalContractDoc>,
    pub types: Vec<HalTypeDoc>,
}

/// What a [`HalDocReport`] holds.
#[verifier::ext_equal]
pub struct HalDocReportView {
    pub contracts: Seq<HalContractDocView>,
    pub types: Seq<HalTypeDocView>,
}

impl DeepView for HalDocReport {
    type V = HalDocReportView;

    open spec fn deep_view(&self) -> HalDocReportView {
        HalDocReportView {
            contracts: self.contracts.deep_view(),
            types: self.types.deep_view(),
        }
    }
}

/// The value of the first tag of the name from `k` on.
pub open spec fn tag_value_from(tags: Seq<HalDocTagView>, name: Seq<char>, k: int) -> Option<Seq<char>>
    decreases tags.len() - k,
{
    if k < 0 || k >= tags.len() {
        None
    } else if tags[k].name == name {
        Some(tags[k].value)
    } else {
        tag_value_from(tags, name, k + 1)
    }
}

/// The value of the first tag of the name.
pub open spec fn tag_value(tags: Seq<HalDocTagView>, name: Seq<char>) -> Option<Seq<char>> {
    tag_value_from(tags, name, 0)
}

/// A text that may be absent, empty where it is.
pub open spec fn or_empty(s: Option<Seq<char>>) -> Seq<char> {
    match s {
        Some(x) => x,
        None => Seq::empty(),
    }
}

/// The tags of a comment, none where there is no comment.
pub open spec fn tags_of(d: Option<HalDocView>) -> Seq<HalDocTagView> {
    match d {
        Some(d) => d.tags,
        None => Seq::empty(),
    }
}

/// The prose of a comment, empty where there is no comment.
pub open spec fn prose_of(d: Option<HalDocView>) -> Seq<char> {
    match d {
        Some(d) => d.prose,
        None => Seq::empty(),
    }
}

/// The value of the first tag of the name.
pub fn find_tag_value(tags: &Vec<HalDocTag>, name: &str) -> (r: Option<String>)
    ensures
        r.deep_view() == tag_value(tags.deep_view(), name@),
{
    let mut k: usize = 0;
    while k < tags.len()
        invariant
            k <= tags@.len(),
            tag_value(tags.deep_view(), name@) == tag_value_from(
                tags.deep_view(),
                name@,
                k as int,
            ),
        decreases tags@.len() - k,
    {
        if same(tags[k].name.as_str(), name) {
            return Some(tags[k].value.clone());
        }
        k = k + 1;
    }
    None
}

fn value_or_empty(tags: &Vec<HalDocTag>, name: &str) -> (r: String)
    ensures
        r@ == or_empty(tag_value(tags.deep_view(), name@)),
{
    match find_tag_value(tags, name) {
        Some(v) => v,
        None => String::new(),
    }
}

fn tags_and_prose(docs: &Vec<HalDoc>, target: &str) -> (r: (Vec<HalDocTag>, String))
    ensures
        r.0.deep_view() == tags_of(doc_on(docs.deep_view(), target@)),
        r.1@ == prose_of(doc_on(docs.deep_view(), target@)),
{
    match find_doc(docs, target) {
        Some(k) => (copy_hal_doc_tags(&docs[k].tags), docs[k].prose.clone()),
        None => {
            let none: Vec<HalDocTag> = Vec::new();
            assert(none.deep_view() =~= Seq::empty());
            (none, String::new())
        },
    }
}

// ---------------------------------------------------------------------------
// Data types
// ---------------------------------------------------------------------------

/// The fields among the first `n` comments.
pub open spec fn doc_fields(docs: Seq<HalDocView>, n: int) -> Seq<HalFieldDocView>
    decreases n,
{
    if n <= 0 {
        Seq::empty()
    } else {
        let done = doc_fields(docs, n - 1);
        let d = docs[n - 1];
        if d.kind == "field"@ {
            done.push(
                HalFieldDocView {
                    name: d.target,
                    field_type: Seq::empty(),
                    tags: d.tags,
                    prose: d.prose,
                },
            )
        } else {
            done
        }
    }
}

/// The position of the field of the name from `k` on.
pub open spec fn field_named(fields: Seq<HalFieldDocView>, name: Seq<char>, k: int) -> Option<int>
    decreases fields.len() - k,
{
    if k < 0 || k >= fields.len() {
        None
    } else if fields[k].name == name {
        Some(k)
    } else {
        field_named(fields, name, k + 1)
    }
}

/// The fields with a trailing comment merged in: added to the first field of that
/// name, or as a new field.
pub open spec fn with_inline_field(fields: Seq<HalFieldDocView>, inline: HalFieldDocView) -> Seq<
    HalFieldDocView,
> {
    match field_named(fields, inline.name, 0) {
        Some(k) => fields.update(
            k,
            HalFieldDocView { prose: with_prose(fields[k].prose, inline.prose), ..fields[k] },
        ),
        None => fields.push(inline),
    }
}

/// The fields with the first `n` trailing comments merged in.
pub open spec fn merged_fields(
    fields: Seq<HalFieldDocView>,
    inline: Seq<HalFieldDocView>,
    n: int,
) -> Seq<HalFieldDocView>
    decreases n,
{
    if n <= 0 {
        fields
    } else {
        with_inline_field(merged_fields(fields, inline, n - 1), inline[n - 1])
    }
}

/// The documented fields of a header: those with a comment above, which holds what
/// trails on the same line, and with them the trailing comments of all others.
pub open spec fn header_fields(content: Seq<char>) -> Seq<HalFieldDocView> {
    let docs = docs_of(content);
    let inline = lone_fields(content);
    merged_fields(doc_fields(docs, docs.len() as int), inline, inline.len() as int)
}

/// The page of a data type.
pub open spec fn type_page(content: Seq<char>, header: Seq<char>, cname: Seq<char>) -> HalTypeDocView {
    let d = doc_on(docs_of(content), cname);
    HalTypeDocView {
        name: cname,
        header,
        brief: or_empty(tag_value(tags_of(d), "@brief"@)),
        tags: tags_of(d),
        prose: prose_of(d),
        fields: header_fields(content),
    }
}

/// The pages of the first `n` classes of a data header.
pub open spec fn type_pages(
    content: Seq<char>,
    header: Seq<char>,
    classes: Seq<(Seq<char>, Seq<Seq<char>>)>,
    n: int,
) -> Seq<HalTypeDocView>
    decreases n,
{
    if n <= 0 {
        Seq::empty()
    } else {
        type_pages(content, header, classes, n - 1).push(
            type_page(content, header, classes[n - 1].0),
        )
    }
}

fn merge_inline(fields: &mut Vec<HalFieldDoc>, inline: &HalFieldDoc)
    ensures
        final(fields).deep_view() == with_inline_field(old(fields).deep_view(), inline.deep_view()),
{
    let ghost start = fields.deep_view();
    let mut k: usize = 0;
    while k < fields.len()
        invariant
            k <= fields@.len(),
            start == fields.deep_view(),
            start == old(fields).deep_view(),
            field_named(start, inline.name@, 0) == field_named(start, inline.name@, k as int),
        decreases fields@.len() - k,
    {
        if same(fields[k].name.as_str(), inline.name.as_str()) {
            let mut f = fields[k].clone();
            add_prose(&mut f.prose, inline.prose.as_str());
            fields[k] = f;
            assert(fields.deep_view() =~= with_inline_field(start, inline.deep_view()));
            return;
        }
        k = k + 1;
    }
    add_item(fields, inline.clone());
}

fn fields_of_header(content: &str) -> (r: Vec<HalFieldDoc>)
    ensures
        r.deep_view() == header_fields(content@),
{
    let (docs, inline) = field_docs(content);
    let ghost all = docs.deep_view();
    let mut fields: Vec<HalFieldDoc> = Vec::new();
    assert(fields.deep_view() =~= Seq::empty());
    let mut i: usize = 0;
    while i < docs.len()
        invariant
            i <= docs@.len(),
            all == docs.deep_view(),
            fields.deep_view() == doc_fields(all, i as int),
        decreases docs@.len() - i,
    {
        let d = &docs[i];
        if same(d.kind.as_str(), "field") {
            let empty = String::new();
            assert(empty@ =~= Seq::empty());
            add_item(
                &mut fields,
                HalFieldDoc {
                    name: d.target.clone(),
                    field_type: empty,
                    tags: copy_hal_doc_tags(&d.tags),
                    prose: d.prose.clone(),
                },
            );
        }
        i = i + 1;
    }
    let ghost start = fields.deep_view();
    let ghost extra = inline.deep_view();
    let mut k: usize = 0;
    while k < inline.len()
        invariant
            k <= inline@.len(),
            extra == inline.deep_view(),
            fields.deep_view() == merged_fields(start, extra, k as int),
        decreases inline@.len() - k,
    {
        merge_inline(&mut fields, &inline[k]);
        k = k + 1;
    }
    fields
}

fn page_of_type(content: &str, header: &str, cname: &str) -> (r: HalTypeDoc)
    ensures
        r.deep_view() == type_page(content@, header@, cname@),
{
    let docs = parse_hal_docs(content);
    let (tags, prose) = tags_and_prose(&docs, cname);
    let brief = value_or_empty(&tags, "@brief");
    HalTypeDoc {
        name: cname.to_owned(),
        header: header.to_owned(),
        brief,
        tags,
        prose,
        fields: fields_of_header(content),
    }
}

fn pages_of_types(content: &str, header: &str, classes: &Vec<(String, Vec<String>)>) -> (r: Vec<HalTypeDoc>)
    ensures
        r.deep_view() == type_pages(content@, header@, classes.deep_view(), classes@.len() as int),
{
    let ghost all = classes.deep_view();
    let mut pages: Vec<HalTypeDoc> = Vec::new();
    assert(pages.deep_view() =~= Seq::empty());
    let mut i: usize = 0;
    while i < classes.len()
        invariant
            i <= classes@.len(),
            all == classes.deep_view(),
            pages.deep_view() == type_pages(content@, header@, all, i as int),
        decreases classes@.len() - i,
    {
        add_item(&mut pages, page_of_type(content, header, classes[i].0.as_str()));
        i = i + 1;
    }
    pages
}

/// The pages of the data types among the first `n` headers of a directory: those
/// whose header declares no contract.
pub open spec fn types_upto(
    root: Seq<char>,
    dir: Seq<char>,
    headers: Seq<(Seq<char>, Seq<char>)>,
    n: int,
) -> Seq<HalTypeDocView>
    decreases n,
{
    if n <= 0 {
        Seq::empty()
    } else {
        let done = types_upto(root, dir, headers, n - 1);
        let (name, content) = headers[n - 1];
        let classes = base_classes(content);
        if contract_classes(content).len() == 0 {
            done + type_pages(content, full_path(root, path_join(dir, name)), classes, classes.len() as int)
        } else {
            done
        }
    }
}

/// The pages of the data types of a directory.
pub open spec fn types_in(t: ProjectTreeView, dir: Seq<char>) -> Seq<HalTypeDocView> {
    types_upto(t.root, dir, headers_in(t, dir), headers_in(t, dir).len() as int)
}

/// The names of the first `n` data types.
pub open spec fn type_names(types: Seq<HalTypeDocView>, n: int) -> Seq<Seq<char>>
    decreases n,
{
    if n <= 0 {
        Seq::empty()
    } else {
        type_names(types, n - 1).push(types[n - 1].name)
    }
}

fn list_types(tree: &ProjectTree, dir: &str) -> (r: Vec<HalTypeDoc>)
    ensures
        r.deep_view() == types_in(tree.deep_view(), dir@),
{
    let headers = tree.headers(dir);
    let ghost list = headers.deep_view();
    let ghost root = tree.root@;
    let mut types: Vec<HalTypeDoc> = Vec::new();
    assert(types.deep_view() =~= Seq::empty());
    let mut i: usize = 0;
    while i < headers.len()
        invariant
            i <= headers@.len(),
            list == headers.deep_view(),
            root == tree.root@,
            types.deep_view() == types_upto(root, dir@, list, i as int),
        decreases headers@.len() - i,
    {
        let name = headers[i].0.as_str();
        let content = headers[i].1.as_str();
        assert(list[i as int] == (name@, content@));
        if extract_contract_methods_cpp(content).len() == 0 {
            let path = path_from_root(tree.root.as_str(), join_path(dir, name).as_str());
            let classes = extract_cpp_base_classes(content);
            add_items(&mut types, pages_of_types(content, path.as_str(), &classes));
        }
        i = i + 1;
    }
    types
}

fn names_of_types(types: &Vec<HalTypeDoc>) -> (r: Vec<String>)
    ensures
        r.deep_view() == type_names(types.deep_view(), types@.len() as int),
{
    let ghost all = types.deep_view();
    let mut names: Vec<String> = Vec::new();
    assert(names.deep_view() =~= Seq::empty());
    let mut i: usize = 0;
    while i < types.len()
        invariant
            i <= types@.len(),
            all == types.deep_view(),
            names.deep_view() == type_names(all, i as int),
        decreases types@.len() - i,
    {
        add_item(&mut names, types[i].name.clone());
        i = i + 1;
    }
    names
}

// ---------------------------------------------------------------------------
// Contracts
// ---------------------------------------------------------------------------

/// The first class that derives the module base, from `k` on.
pub open spec fn module_class(classes: Seq<(Seq<char>, Seq<Seq<char>>)>, k: int) -> Option<Seq<char>>
    decreases classes.len() - k,
{
    if k < 0 || k >= classes.len() {
        None
    } else if classes[k].1.contains("HalModule"@) {
        Some(classes[k].0)
    } else {
        module_class(classes, k + 1)
    }
}

/// The pages of the first `n` methods.
pub open spec fn method_pages(docs: Seq<HalDocView>, methods: Seq<HalContractMethodView>, n: int) -> Seq<
    HalMethodDocView,
>
    decreases n,
{
    if n <= 0 {
        Seq::empty()
    } else {
        let m = methods[n - 1];
        let d = doc_on(docs, m.name);
        method_pages(docs, methods, n - 1).push(
            HalMethodDocView {
                name: m.name,
                return_type: m.return_type,
                params: m.params,
                tags: tags_of(d),
                prose: prose_of(d),
            },
        )
    }
}

/// The first `n` names that stand in the text.
pub open spec fn names_used(content: Seq<char>, names: Seq<Seq<char>>, n: int) -> Seq<Seq<char>>
    decreases n,
{
    if n <= 0 {
        Seq::empty()
    } else {
        let done = names_used(content, names, n - 1);
        if has_text(content, names[n - 1]) {
            done.push(names[n - 1])
        } else {
            done
        }
    }
}

/// How far the first `n` platforms implement the interface.
pub open spec fn platform_pages(
    cov: Seq<(Seq<char>, Seq<(Seq<char>, HalInterfaceCoverageView)>)>,
    stem: Seq<char>,
    n: int,
) -> Seq<HalPlatformDocView>
    decreases n,
{
    if n <= 0 {
        Seq::empty()
    } else {
        let done = platform_pages(cov, stem, n - 1);
        match value_at(cov[n - 1].1, stem) {
            Some(c) => done.push(
                HalPlatformDocView {
                    platform: cov[n - 1].0,
                    implemented: c.implemented,
                    has_impl: c.has_impl,
                    missing: c.missing,
                    drifted: c.drifted,
                },
            ),
            None => done,
        }
    }
}

/// The page of a contract.
pub open spec fn contract_page(
    content: Seq<char>,
    header: Seq<char>,
    stem: Seq<char>,
    class: Seq<char>,
    known_types: Seq<Seq<char>>,
    cov: Seq<(Seq<char>, Seq<(Seq<char>, HalInterfaceCoverageView)>)>,
) -> HalContractDocView {
    let docs = docs_of(content);
    let d = doc_on(docs, class);
    let abstracts = contract_classes(content);
    let methods = flat_methods(abstracts, abstracts.len() as int);
    HalContractDocView {
        stem,
        class_name: class,
        id: or_empty(tag_value(tags_of(d), "@id"@)),
        brief: or_empty(tag_value(tags_of(d), "@brief"@)),
        tags: tags_of(d),
        prose: prose_of(d),
        header,
        methods: method_pages(docs, methods, methods.len() as int),
        uses_types: names_used(content, known_types, known_types.len() as int),
        platforms: platform_pages(cov, stem, cov.len() as int),
    }
}

/// The contracts among the first `n` headers: those that declare one and whose
/// class derives the module base.
pub open spec fn contracts_upto(
    root: Seq<char>,
    cov: Seq<(Seq<char>, Seq<(Seq<char>, HalInterfaceCoverageView)>)>,
    known_types: Seq<Seq<char>>,
    headers: Seq<(Seq<char>, Seq<char>)>,
    n: int,
) -> Seq<HalContractDocView>
    decreases n,
{
    if n <= 0 {
        Seq::empty()
    } else {
        let done = contracts_upto(root, cov, known_types, headers, n - 1);
        let (name, content) = headers[n - 1];
        let path = full_path(root, path_join("hal/api"@, name));
        if contract_classes(content).len() == 0 {
            done
        } else {
            match module_class(base_classes(content), 0) {
                Some(class) => done.push(
                    contract_page(content, path, stem_of(name), class, known_types, cov),
                ),
                None => done,
            }
        }
    }
}

/// The data types of a project: those below `hal/types`, then those of the data
/// headers below `hal/api`.
pub open spec fn report_types(t: ProjectTreeView) -> Seq<HalTypeDocView> {
    types_in(t, "hal/types"@) + types_in(t, "hal/api"@)
}

/// The documentation report of a project.
pub open spec fn report_of(t: ProjectTreeView) -> HalDocReportView {
    let headers = headers_in(t, "hal/api"@);
    let types = report_types(t);
    let known = type_names(types, types.len() as int);
    HalDocReportView {
        contracts: contracts_upto(t.root, coverage_map(t), known, headers, headers.len() as int),
        types,
    }
}

fn find_module_class(classes: &Vec<(String, Vec<String>)>) -> (r: Option<String>)
    ensures
        r.deep_view() == module_class(classes.deep_view(), 0),
{
    let ghost all = classes.deep_view();
    let mut k: usize = 0;
    while k < classes.len()
        invariant
            k <= classes@.len(),
            all == classes.deep_view(),
            module_class(all, 0) == module_class(all, k as int),
        decreases classes@.len() - k,
    {
        assert(all[k as int] == (classes[k as int].0@, classes[k as int].1.deep_view()));
        if list_has(&classes[k].1, "HalModule") {
            return Some(classes[k].0.clone());
        }
        k = k + 1;
    }
    None
}

fn pages_of_methods(docs: &Vec<HalDoc>, methods: &Vec<HalContractMethod>) -> (r: Vec<HalMethodDoc>)
    ensures
        r.deep_view() == method_pages(docs.deep_view(), methods.deep_view(), methods@.len() as int),
{
    let mut out: Vec<HalMethodDoc> = Vec::new();
    assert(out.deep_view() =~= Seq::empty());
    let mut i: usize = 0;
    while i < methods.len()
        invariant
            i <= methods@.len(),
            out.deep_view() == method_pages(docs.deep_view(), methods.deep_view(), i as int),
        decreases methods@.len() - i,
    {
        let m = &methods[i];
        let (tags, prose) = tags_and_prose(docs, m.name.as_str());
        add_item(
            &mut out,
            HalMethodDoc {
                name: m.name.clone(),
                return_type: m.return_type.clone(),
                params: m.params.clone(),
                tags,
                prose,
            },
        );
        i = i + 1;
    }
    out
}

fn used_names(content: &str, names: &Vec<String>) -> (r: Vec<String>)
    ensures
        r.deep_view() == names_used(content@, names.deep_view(), names@.len() as int),
{
    let mut out: Vec<String> = Vec::new();
    assert(out.deep_view() =~= Seq::empty());
    let mut i: usize = 0;
    while i < names.len()
        invariant
            i <= names@.len(),
            out.deep_view() == names_used(content@, names.deep_view(), i as int),
        decreases names@.len() - i,
    {
        if contains(content, names[i].as_str()) {
            add_item(&mut out, names[i].clone());
        }
        i = i + 1;
    }
    out
}

fn pages_of_platforms(
    cov: &Vec<(String, Vec<(String, HalInterfaceCoverage)>)>,
    stem: &str,
) -> (r: Vec<HalPlatformDoc>)
    ensures
        r.deep_view() == platform_pages(cov.deep_view(), stem@, cov@.len() as int),
{
    let ghost all = cov.deep_view();
    let mut out: Vec<HalPlatformDoc> = Vec::new();
    assert(out.deep_view() =~= Seq::empty());
    let mut i: usize = 0;
    while i < cov.len()
        invariant
            i <= cov@.len(),
            all == cov.deep_view(),
            out.deep_view() == platform_pages(all, stem@, i as int),
        decreases cov@.len() - i,
    {
        let ifaces = &cov[i].1;
        assert(all[i as int] == (cov[i as int].0@, ifaces.deep_view()));
        match find_key(ifaces, stem) {
            Some(k) => {
                let c = &ifaces[k].1;
                assert(ifaces.deep_view()[k as int].1 == c.deep_view());
                add_item(
                    &mut out,
                    HalPlatformDoc {
                        platform: cov[i].0.clone(),
                        implemented: c.implemented,
                        has_impl: c.has_impl,
                        missing: copy_texts(&c.missing),
                        drifted: copy_texts(&c.drifted),
                    },
                );
            },
            None => {},
        }
        i = i + 1;
    }
    out
}

fn page_of_contract(
    content: &str,
    header: &str,
    stem: &str,
    class: String,
    known_types: &Vec<String>,
    cov: &Vec<(String, Vec<(String, HalInterfaceCoverage)>)>,
) -> (r: HalContractDoc)
    ensures
        r.deep_view() == contract_page(
            content@,
            header@,
            stem@,
            class@,
            known_types.deep_view(),
            cov.deep_view(),
        ),
{
    let docs = parse_hal_docs(content);
    let methods = flatten_methods(&extract_contract_methods_cpp(content));
    let (tags, prose) = tags_and_prose(&docs, class.as_str());
    HalContractDoc {
        stem: stem.to_owned(),
        id: value_or_empty(&tags, "@id"),
        brief: value_or_empty(&tags, "@brief"),
        class_name: class,
        tags,
        prose,
        header: header.to_owned(),
        methods: pages_of_methods(&docs, &methods),
        uses_types: used_names(content, known_types),
        platforms: pages_of_platforms(cov, stem),
    }
}

/// Builds the documentation report of a project from the headers below `hal/api`
/// and `hal/types` and the coverage of its contracts.
pub fn hal_report(tree: &ProjectTree) -> (r: HalDocReport)
    ensures
        r.deep_view() == report_of(tree.deep_view()),
{
    let cov = hal_platform_coverage_map(tree);
    let headers = tree.headers("hal/api");
    let ghost list = headers.deep_view();
    let ghost root = tree.root@;
    let mut types = list_types(tree, "hal/types");
    add_items(&mut types, list_types(tree, "hal/api"));
    let known_types = names_of_types(&types);
    let mut contracts: Vec<HalContractDoc> = Vec::new();
    assert(contracts.deep_view() =~= Seq::empty());
    let mut i: usize = 0;
    while i < headers.len()
        invariant
            i <= headers@.len(),
            list == headers.deep_view(),
            root == tree.root@,
            contracts.deep_view() == contracts_upto(
                root,
                cov.deep_view(),
                known_types.deep_view(),
                list,
                i as int,
            ),
        decreases headers@.len() - i,
    {
        let name = headers[i].0.as_str();
        let content = headers[i].1.as_str();
        assert(list[i as int] == (name@, content@));
        let path = path_from_root(tree.root.as_str(), join_path("hal/api", name).as_str());
        if extract_contract_methods_cpp(content).len() > 0 {
            let classes = extract_cpp_base_classes(content);
            if let Some(class) = find_module_class(&classes) {
                let page = page_of_contract(
                    content,
                    path.as_str(),
                    file_stem(name),
                    class,
                    &known_types,
                    &cov,
                );
                add_item(&mut contracts, page);
            }
        }
        i = i + 1;
    }
    HalDocReport { contracts, types }
}

} // verus!
