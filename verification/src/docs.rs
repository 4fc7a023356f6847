//! Structured comments of HAL headers: parsing, linting and the texts made of
//! them.

use vstd::prelude::*;

use crate::coverage::{
    holds_type, is_name_char, is_of_type, is_type_word, param_words, some_type, words_of_param,
};
use crate::cpp::{
    contract_classes, drop_defaults, extract_contract_methods_cpp, without_defaults, HalContractMethod,
    HalContractMethodView,
};
use crate::project::{
    content_at, dir_at, full_path, has_extension, join_path, names_in, path_from_root, path_join,
    with_extension, ProjectTree, ProjectTreeView,
};
use crate::text::{
    add_item, add_items, after, alphanumeric, before, begins, chars_of, contains, cut_lead, cut_lead_text,
    cut_tail, decimal, ends, ends_with, find, find_from, has_text, head_of, is_alphanumeric, is_less, join, joined, less,
    line_seq, lines, number_text, pieces, same, split, starts_with, strip_lead, tail_of, tokens, tokens_of,
    trim, trim_end, trim_lead, trim_start, trim_tail, trimmed, trimmed_end, trimmed_start, word_seq, words,
};

verus! {

/// One tag of a structured comment.
#[derive(Debug, PartialEq, Eq)]
pub struct HalDocTag {
    /// The tag as written, such as `@param`.
    pub name: String,
    /// What it is about: the parameter of `@param`, else the bare tag.
    pub key: String,
    pub value: String,
}

/// What a [`HalDocTag`] holds.
#[verifier::ext_equal]
pub struct HalDocTagView {
    pub name: Seq<char>,
    pub key: Seq<char>,
    pub value: Seq<char>,
}

impl DeepView for HalDocTag {
    type V = HalDocTagView;

    open spec fn deep_view(&self) -> HalDocTagView {
        HalDocTagView {
            name: self.name@,
            key: self.key@,
            value: self.value@,
        }
    }
}

impl Clone for HalDocTag {
    fn clone(&self) -> (r: Self)
        ensures
            r.deep_view() == self.deep_view(),
    {
        HalDocTag {
            name: self.name.clone(),
            key: self.key.clone(),
            value: self.value.clone(),
        }
    }
}

/// A copy of a list of [`HalDocTag`] values.
pub fn copy_hal_doc_tags(v: &Vec<HalDocTag>) -> (r: Vec<HalDocTag>)
    ensures
        r.deep_view() == v.deep_view(),
{
    let mut out: Vec<HalDocTag> = Vec::new();
    let mut i: usize = 0;
    while i < v.len()
        invariant
            i <= v@.len(),
            out.deep_view() == v.deep_view().take(i as int),
        decreases v@.len() - i,
    {
        add_item(&mut out, v[i].clone());
        assert(v.deep_view().take(i + 1) =~= v.deep_view().take(i as int).push(v[i as int].deep_view()));
        i = i + 1;
    }
    assert(v.deep_view().take(v@.len() as int) =~= v.deep_view());
    out
}

/// A structured comment attached to a declaration.
#[derive(Debug, PartialEq, Eq)]
pub struct HalDoc {
    /// The declared name.
    pub target: String,
    /// `contract`, `type`, `method` or `field`.
    pub kind: String,
    pub tags: Vec<HalDocTag>,
    /// The text outside the tags.
    pub prose: String,
}

/// What a [`HalDoc`] holds.
#[verifier::ext_equal]
pub struct HalDocView {
    pub target: Seq<char>,
    pub kind: Seq<char>,
    pub tags: Seq<HalDocTagView>,
    pub prose: Seq<char>,
}

impl DeepView for HalDoc {
    type V = HalDocView;

    open spec fn deep_view(&self) -> HalDocView {
        HalDocView {
            target: self.target@,
            kind: self.kind@,
            tags: self.tags.deep_view(),
            prose: self.prose@,
        }
    }
}

impl Clone for HalDoc {
    fn clone(&self) -> (r: Self)
        ensures
            r.deep_view() == self.deep_view(),
    {
        HalDoc {
            target: self.target.clone(),
            kind: self.kind.clone(),
            tags: copy_hal_doc_tags(&self.tags),
            prose: self.prose.clone(),
        }
    }
}

/// A copy of a list of [`HalDoc`] values.
pub fn copy_hal_docs(v: &Vec<HalDoc>) -> (r: Vec<HalDoc>)
    ensures
        r.deep_view() == v.deep_view(),
{
    let mut out: Vec<HalDoc> = Vec::new();
    let mut i: usize = 0;
    while i < v.len()
        invariant
            i <= v@.len(),
            out.deep_view() == v.deep_view().take(i as int),
        decreases v@.len() - i,
    {
        add_item(&mut out, v[i].clone());
        assert(v.deep_view().take(i + 1) =~= v.deep_view().take(i as int).push(v[i as int].deep_view()));
        i = i + 1;
    }
    assert(v.deep_view().take(v@.len() as int) =~= v.deep_view());
    out
}

// ---------------------------------------------------------------------------
// Parsing
// ---------------------------------------------------------------------------

/// A text up to its first space, and the rest behind it.
pub open spec fn cut_at_space(s: Seq<char>) -> (Seq<char>, Seq<char>) {
    match find_from(s, " "@, 0) {
        Some(k) => (before(s, k), after(s, k + 1)),
        None => (s, Seq::empty()),
    }
}

fn split_at_space(s: &str) -> (r: (String, String))
    ensures
        (r.0@, r.1@) == cut_at_space(s@),
{
    proof {
        reveal_strlit(" ");
    }
    match find(s, " ") {
        Some(k) => {
            let n: usize = s.unicode_len();
            assert(k + 1 <= n);
            (head_of(s, k).to_owned(), tail_of(s, k + 1).to_owned())
        },
        None => (s.to_owned(), String::new()),
    }
}

/// The tag that a comment line states; `t` is trimmed and begins with `@`.
pub open spec fn tag_of(t: Seq<char>) -> HalDocTagView {
    let (name, more) = cut_at_space(t);
    let rest = trimmed(more);
    if name == "@param"@ || name == "@platform-note"@ {
        let (key, value) = cut_at_space(rest);
        HalDocTagView { name, key, value }
    } else {
        HalDocTagView { name, key: trim_lead(name, Some("@"@)), value: rest }
    }
}

/// Prose with one more piece, a space between them.
pub open spec fn with_prose(prose: Seq<char>, more: Seq<char>) -> Seq<char> {
    if prose.len() == 0 {
        more
    } else {
        prose + " "@ + more
    }
}

/// The tags and the prose of the first `n` comment lines.
pub open spec fn doc_tags(rows: Seq<Seq<char>>, n: int) -> (Seq<HalDocTagView>, Seq<char>)
    decreases n,
{
    if n <= 0 {
        (Seq::empty(), Seq::empty())
    } else {
        let (tags, prose) = doc_tags(rows, n - 1);
        let t = trimmed(rows[n - 1]);
        if t == "@"@ || t.len() == 0 {
            (tags, prose)
        } else if begins(t, "@"@) {
            (tags.push(tag_of(t)), prose)
        } else {
            (tags, with_prose(prose, t))
        }
    }
}

fn read_tag(t: &str) -> (r: HalDocTag)
    ensures
        r.deep_view() == tag_of(t@),
{
    let (name, more) = split_at_space(t);
    let rest = trim(more.as_str());
    if same(name.as_str(), "@param") || same(name.as_str(), "@platform-note") {
        let (key, value) = split_at_space(rest);
        HalDocTag { name, key, value }
    } else {
        let key = cut_lead(name.as_str(), Some("@")).to_owned();
        HalDocTag { name, key, value: rest.to_owned() }
    }
}

/// Adds to prose, behind a space.
pub fn add_prose(prose: &mut String, more: &str)
    ensures
        final(prose)@ == with_prose(old(prose)@, more@),
{
    if prose.as_str().unicode_len() > 0 {
        prose.append(" ");
        prose.append(more);
    } else {
        *prose = more.to_owned();
    }
}

/// The tags and the prose of comment lines.
pub fn parse_doc_tags(rows: &Vec<String>) -> (r: (Vec<HalDocTag>, String))
    ensures
        (r.0.deep_view(), r.1@) == doc_tags(rows.deep_view(), rows@.len() as int),
{
    let mut tags: Vec<HalDocTag> = Vec::new();
    let mut prose = String::new();
    assert(tags.deep_view() =~= Seq::empty());
    let mut i: usize = 0;
    while i < rows.len()
        invariant
            i <= rows@.len(),
            (tags.deep_view(), prose@) == doc_tags(rows.deep_view(), i as int),
        decreases rows@.len() - i,
    {
        let t = trim(rows[i].as_str());
        if !(same(t, "@") || t.unicode_len() == 0) {
            if starts_with(t, "@") {
                add_item(&mut tags, read_tag(t));
            } else {
                add_prose(&mut prose, t);
            }
        }
        i = i + 1;
    }
    (tags, prose)
}

/// A line without its trailing comment.
pub open spec fn without_comment(t: Seq<char>) -> Seq<char> {
    match find_from(t, "//"@, 0) {
        Some(k) => trimmed_end(before(t, k)),
        None => t,
    }
}

/// A declaration line without its trailing comment and a leading `static`.
pub open spec fn declaration(t: Seq<char>) -> Seq<char> {
    trimmed_start(strip_lead(without_comment(t), "static "@))
}

/// The line declares a class or struct.
pub open spec fn declares_class(d: Seq<char>) -> bool {
    begins(d, "class "@) || begins(d, "struct "@)
}

/// The line declares something: it is no directive, no brace, no namespace, no
/// template header and no label such as `public:`.
pub open spec fn is_declaration(d: Seq<char>) -> bool {
    &&& d.len() > 0
    &&& !begins(d, "#"@) && !begins(d, "{"@) && !begins(d, "}"@)
    &&& !begins(d, "namespace"@) && !begins(d, "template"@)
    &&& declares_class(d) || !ends(d, ":"@)
}

/// A member with its value or its body left out.
pub open spec fn before_value(d: Seq<char>) -> Seq<char> {
    pieces(pieces(d, '=')[0], '{')[0]
}

/// The line declares a function: its parenthesis stands before any value.
pub open spec fn declares_function(d: Seq<char>) -> bool {
    has_text(d, "("@) && (has_text(before_value(d), "("@) || has_text(d, "operator"@))
}

/// The kind of a declaration.
pub open spec fn declared_kind(d: Seq<char>) -> Seq<char> {
    if declares_class(d) {
        if has_text(d, "= 0"@) || has_text(d, ":"@) {
            "contract"@
        } else {
            "type"@
        }
    } else if declares_function(d) {
        "method"@
    } else {
        "field"@
    }
}

/// The last text of a list, empty where there is none.
pub open spec fn last_or_empty(s: Seq<Seq<char>>) -> Seq<char> {
    if s.len() == 0 {
        Seq::empty()
    } else {
        s.last()
    }
}

/// The identifier of a declarator, without what makes it a pointer, a reference or
/// an array.
pub open spec fn bare_name(w: Seq<char>) -> Seq<char> {
    pieces(trim_lead(w, Some("*&"@)), '[')[0]
}

/// The name that a declaration declares: of a class the second word, of a
/// function the word before its parenthesis, of a field the last one before its
/// value.
pub open spec fn declared_target(d: Seq<char>) -> Seq<char> {
    if declares_class(d) {
        let w = word_seq(d);
        if w.len() > 1 {
            trimmed(trim_tail(w[1], Some(":{"@)))
        } else {
            Seq::empty()
        }
    } else if declares_function(d) {
        let head = pieces(d, '(')[0];
        trimmed(trim_tail(trim_lead(last_or_empty(word_seq(head)), Some("*&"@)), Some("="@)))
    } else {
        bare_name(last_or_empty(tokens_of(before_value(d), " \t;,"@)))
    }
}

/// Prose with the comment that stands on the declaration line itself.
pub open spec fn with_inline(prose: Seq<char>, t: Seq<char>) -> Seq<char> {
    match find_from(t, "//"@, 0) {
        Some(k) => {
            let inline = trimmed(after(t, k + 2));
            if inline.len() == 0 {
                prose
            } else {
                with_prose(prose, inline)
            }
        },
        None => prose,
    }
}

/// The comment attached to the declaration on the trimmed line `t`.
pub open spec fn doc_of(pending: Seq<Seq<char>>, t: Seq<char>) -> HalDocView {
    let d = declaration(t);
    let (tags, prose) = doc_tags(pending, pending.len() as int);
    HalDocView {
        target: declared_target(d),
        kind: declared_kind(d),
        tags,
        prose: with_inline(prose, t),
    }
}

/// The state of reading a header: comment lines waiting for a declaration,
/// whether a block comment is open, and the comments attached so far.
#[verifier::ext_equal]
pub struct DocState {
    pub pending: Seq<Seq<char>>,
    pub in_block: bool,
    pub docs: Seq<HalDocView>,
}

/// A plain comment that only separates.
pub open spec fn is_separator(body: Seq<char>) -> bool {
    body.len() == 0 || has_text(body, "\u{2500}\u{2500}\u{2500}"@)
}

/// The state behind one more line outside of block comments.
pub open spec fn line_step(s: DocState, t: Seq<char>) -> DocState {
    if begins(t, "///"@) {
        DocState { pending: s.pending.push(trimmed(trim_lead(t, Some("/"@)))), ..s }
    } else if begins(t, "//"@) {
        let body = trimmed(trim_lead(t, Some("/"@)));
        if is_separator(body) {
            s
        } else {
            DocState { pending: s.pending.push(body), ..s }
        }
    } else if s.pending.len() > 0 && is_declaration(declaration(t)) {
        DocState { pending: Seq::empty(), docs: s.docs.push(doc_of(s.pending, t)), ..s }
    } else {
        s
    }
}

/// A line of a block comment without its leading stars.
pub open spec fn block_text(body: Seq<char>) -> Seq<char> {
    trimmed(trim_lead(trimmed_start(body), Some("*"@)))
}

/// The state behind one more line of a block comment, its first one or a later
/// one. The closing mark ends the block wherever it stands, and what follows it
/// is a line of its own.
pub open spec fn block_step(s: DocState, body: Seq<char>, first: bool) -> DocState {
    match find_from(body, "*/"@, 0) {
        None => DocState { pending: s.pending.push(block_text(body)), in_block: true, docs: s.docs },
        Some(k) => {
            let text = block_text(before(body, k));
            let pending = if first || text.len() > 0 {
                s.pending.push(text)
            } else {
                s.pending
            };
            line_step(
                DocState { pending, in_block: false, docs: s.docs },
                trimmed(after(body, k + 2)),
            )
        },
    }
}

/// The state behind one more line.
pub open spec fn doc_step(s: DocState, line: Seq<char>) -> DocState {
    let t = trimmed(line);
    if s.in_block {
        block_step(s, t, false)
    } else if begins(t, "/**/"@) {
        line_step(s, trimmed(after(t, 4)))
    } else if begins(t, "/**"@) {
        block_step(s, after(t, 3), true)
    } else {
        line_step(s, t)
    }
}

/// The state behind the first `n` lines.
pub open spec fn doc_state(rows: Seq<Seq<char>>, n: int) -> DocState
    decreases n,
{
    if n <= 0 {
        DocState { pending: Seq::empty(), in_block: false, docs: Seq::empty() }
    } else {
        doc_step(doc_state(rows, n - 1), rows[n - 1])
    }
}

/// The line behind the first `n` declares a field with a comment of its own above.
pub open spec fn documents_field(rows: Seq<Seq<char>>, n: int) -> bool {
    let docs = doc_state(rows, n + 1).docs;
    docs.len() > doc_state(rows, n).docs.len() && docs.last().kind == "field"@
}

/// The first `n` lines without those that declare a field with a comment above.
pub open spec fn rows_without_docs(rows: Seq<Seq<char>>, n: int) -> Seq<Seq<char>>
    decreases n,
{
    if n <= 0 {
        Seq::empty()
    } else {
        let done = rows_without_docs(rows, n - 1);
        if documents_field(rows, n - 1) {
            done
        } else {
            done.push(rows[n - 1])
        }
    }
}

/// The comments of a header, each with its declaration.
pub open spec fn docs_of(content: Seq<char>) -> Seq<HalDocView> {
    doc_state(line_seq(content), line_seq(content).len() as int).docs
}

fn last_text(v: &Vec<String>) -> (r: String)
    ensures
        r@ == last_or_empty(v.deep_view()),
{
    if v.len() == 0 {
        String::new()
    } else {
        v[v.len() - 1].clone()
    }
}

fn cut_comment(t: &str) -> (r: &str)
    ensures
        r@ == without_comment(t@),
{
    match find(t, "//") {
        Some(k) => trim_end(head_of(t, k)),
        None => t,
    }
}

fn declares(d: &str) -> (r: bool)
    ensures
        r == is_declaration(d@),
{
    let class = starts_with(d, "class ") || starts_with(d, "struct ");
    let bare = starts_with(d, "#") || starts_with(d, "{") || starts_with(d, "}");
    let wraps = starts_with(d, "namespace") || starts_with(d, "template");
    d.unicode_len() > 0 && !bare && !wraps && (class || !ends_with(d, ":"))
}

fn cut_value(d: &str) -> (r: String)
    ensures
        r@ == before_value(d@),
{
    let sides = split(d, '=');
    assert(sides.deep_view()[0] == sides[0]@);
    let parts = split(sides[0].as_str(), '{');
    assert(parts.deep_view()[0] == parts[0]@);
    parts[0].clone()
}

fn is_function(d: &str) -> (r: bool)
    ensures
        r == declares_function(d@),
{
    contains(d, "(") && (contains(cut_value(d).as_str(), "(") || contains(d, "operator"))
}

fn name_of_declarator(w: &str) -> (r: String)
    ensures
        r@ == bare_name(w@),
{
    let parts = split(cut_lead(w, Some("*&")), '[');
    assert(parts.deep_view()[0] == parts[0]@);
    parts[0].clone()
}

fn target_of_declaration(d: &str) -> (r: String)
    ensures
        r@ == declared_target(d@),
{
    if starts_with(d, "class ") || starts_with(d, "struct ") {
        let w = words(d);
        if w.len() > 1 {
            assert(w.deep_view()[1] == w[1]@);
            trim(cut_tail(w[1].as_str(), Some(":{"))).to_owned()
        } else {
            String::new()
        }
    } else if is_function(d) {
        let parts = split(d, '(');
        assert(parts.deep_view()[0] == parts[0]@);
        let last = last_text(&words(parts[0].as_str()));
        trim(cut_tail(cut_lead(last.as_str(), Some("*&")), Some("="))).to_owned()
    } else {
        let last = last_text(&tokens(cut_value(d).as_str(), " \t;,"));
        name_of_declarator(last.as_str())
    }
}

fn kind_of_declaration(d: &str) -> (r: String)
    ensures
        r@ == declared_kind(d@),
{
    if starts_with(d, "class ") || starts_with(d, "struct ") {
        if contains(d, "= 0") || contains(d, ":") {
            "contract".to_owned()
        } else {
            "type".to_owned()
        }
    } else if is_function(d) {
        "method".to_owned()
    } else {
        "field".to_owned()
    }
}

fn attach_doc(pending: &Vec<String>, t: &str) -> (r: HalDoc)
    ensures
        r.deep_view() == doc_of(pending.deep_view(), t@),
{
    proof {
        reveal_strlit("//");
    }
    let d = trim_start(cut_lead_text(cut_comment(t), "static "));
    let (tags, prose) = parse_doc_tags(pending);
    let mut prose = prose;
    match find(t, "//") {
        Some(k) => {
            let n: usize = t.unicode_len();
            assert(k + 2 <= n);
            let inline = trim(tail_of(t, k + 2));
            if inline.unicode_len() > 0 {
                add_prose(&mut prose, inline);
            }
        },
        None => {},
    }
    HalDoc { target: target_of_declaration(d), kind: kind_of_declaration(d), tags, prose }
}

fn read_line(pending: &mut Vec<String>, docs: &mut Vec<HalDoc>, t: &str)
    ensures
        ({
            let s = line_step(
                DocState {
                    pending: old(pending).deep_view(),
                    in_block: false,
                    docs: old(docs).deep_view(),
                },
                t@,
            );
            &&& final(pending).deep_view() == s.pending
            &&& final(docs).deep_view() == s.docs
            &&& !s.in_block
        }),
{
    if starts_with(t, "///") {
        add_item(pending, trim(cut_lead(t, Some("/"))).to_owned());
    } else if starts_with(t, "//") {
        let body = trim(cut_lead(t, Some("/")));
        let separator = body.unicode_len() == 0 || contains(body, "\u{2500}\u{2500}\u{2500}");
        if !separator {
            add_item(pending, body.to_owned());
        }
    } else if pending.len() > 0 && declares(trim_start(cut_lead_text(cut_comment(t), "static "))) {
        add_item(docs, attach_doc(pending, t));
        pending.clear();
        assert(pending.deep_view() =~= Seq::empty());
    }
}

fn read_block(pending: &mut Vec<String>, docs: &mut Vec<HalDoc>, body: &str, first: bool) -> (r: bool)
    ensures
        (DocState {
            pending: final(pending).deep_view(),
            in_block: r,
            docs: final(docs).deep_view(),
        }) == block_step(
            DocState {
                pending: old(pending).deep_view(),
                in_block: true,
                docs: old(docs).deep_view(),
            },
            body@,
            first,
        ),
{
    proof {
        reveal_strlit("*/");
    }
    match find(body, "*/") {
        None => {
            add_item(pending, trim(cut_lead(trim_start(body), Some("*"))).to_owned());
            true
        },
        Some(k) => {
            let n: usize = body.unicode_len();
            assert(k + 2 <= n);
            let text = trim(cut_lead(trim_start(head_of(body, k)), Some("*")));
            if first || text.unicode_len() > 0 {
                add_item(pending, text.to_owned());
            }
            read_line(pending, docs, trim(tail_of(body, k + 2)));
            false
        },
    }
}

fn read_header(content: &str) -> (r: (Vec<HalDoc>, Vec<String>))
    ensures
        r.0.deep_view() == docs_of(content@),
        r.1.deep_view() == rows_without_docs(line_seq(content@), line_seq(content@).len() as int),
{
    proof {
        reveal_strlit("/**/");
        reveal_strlit("/**");
    }
    let rows = lines(content);
    let mut docs: Vec<HalDoc> = Vec::new();
    let mut pending: Vec<String> = Vec::new();
    let mut bare: Vec<String> = Vec::new();
    let mut in_block = false;
    assert(docs.deep_view() =~= Seq::empty());
    assert(pending.deep_view() =~= Seq::empty());
    assert(bare.deep_view() =~= Seq::empty());
    let mut i: usize = 0;
    while i < rows.len()
        invariant
            i <= rows@.len(),
            "/**/"@.len() == 4,
            "/**"@.len() == 3,
            (DocState { pending: pending.deep_view(), in_block, docs: docs.deep_view() }) == doc_state(
                rows.deep_view(),
                i as int,
            ),
            bare.deep_view() == rows_without_docs(rows.deep_view(), i as int),
        decreases rows@.len() - i,
    {
        let count: usize = docs.len();
        assert(docs.deep_view().len() == count);
        let t = trim(rows[i].as_str());
        let n: usize = t.unicode_len();
        if in_block {
            in_block = read_block(&mut pending, &mut docs, t, false);
        } else if starts_with(t, "/**/") {
            assert(4 <= n);
            read_line(&mut pending, &mut docs, trim(tail_of(t, 4)));
        } else if starts_with(t, "/**") {
            assert(3 <= n);
            in_block = read_block(&mut pending, &mut docs, tail_of(t, 3), true);
        } else {
            read_line(&mut pending, &mut docs, t);
        }
        let size: usize = docs.len();
        assert(docs.deep_view() == doc_state(rows.deep_view(), i + 1).docs);
        assert(docs.deep_view().len() == size);
        let own = size > count && {
            assert(docs.deep_view().last() == docs[size - 1].deep_view());
            same(docs[size - 1].kind.as_str(), "field")
        };
        if !own {
            add_item(&mut bare, rows[i].clone());
        }
        i = i + 1;
    }
    (docs, bare)
}

/// Parses the structured comments of a C/C++ header: runs of `///` lines, block
/// comments and plain `//` lines, each attached to the first declaration that
/// follows.
pub fn parse_hal_docs(content: &str) -> (r: Vec<HalDoc>)
    ensures
        r.deep_view() == docs_of(content@),
{
    let (docs, _) = read_header(content);
    docs
}

// ---------------------------------------------------------------------------
// Inline field comments
// ---------------------------------------------------------------------------

/// One documented field of a data type.
#[derive(Debug, PartialEq, Eq)]
pub struct HalFieldDoc {
    pub name: String,
    pub field_type: String,
    pub tags: Vec<HalDocTag>,
    pub prose: String,
}

/// What a [`HalFieldDoc`] holds.
#[verifier::ext_equal]
pub struct HalFieldDocView {
    pub name: Seq<char>,
    pub field_type: Seq<char>,
    pub tags: Seq<HalDocTagView>,
    pub prose: Seq<char>,
}

impl DeepView for HalFieldDoc {
    type V = HalFieldDocView;

    open spec fn deep_view(&self) -> HalFieldDocView {
        HalFieldDocView {
            name: self.name@,
            field_type: self.field_type@,
            tags: self.tags.deep_view(),
            prose: self.prose@,
        }
    }
}

impl Clone for HalFieldDoc {
    fn clone(&self) -> (r: Self)
        ensures
            r.deep_view() == self.deep_view(),
    {
        HalFieldDoc {
            name: self.name.clone(),
            field_type: self.field_type.clone(),
            tags: copy_hal_doc_tags(&self.tags),
            prose: self.prose.clone(),
        }
    }
}

/// Names and types in dictionary order, the name first.
pub open spec fn field_less(a: (Seq<char>, Seq<char>), b: (Seq<char>, Seq<char>)) -> bool {
    less(a.0, b.0) || (a.0 == b.0 && less(a.1, b.1))
}

/// The text is an identifier, so it can name a field.
pub open spec fn names_field(s: Seq<char>) -> bool {
    &&& s.len() > 0
    &&& !('0' <= s[0] <= '9')
    &&& forall|i: int| 0 <= i < s.len() ==> is_name_char(#[trigger] s[i])
}

/// The word opens a scope or a type rather than a field.
pub open spec fn opens_scope(w: Seq<char>) -> bool {
    w == "namespace"@ || w == "class"@ || w == "struct"@ || w == "enum"@ || w == "union"@ || w == "using"@
}

/// The field that a line with a trailing comment declares: name, type and
/// comment.
pub open spec fn inline_field(line: Seq<char>) -> Option<(Seq<char>, Seq<char>, Seq<char>)> {
    let t = trimmed(line);
    if t.len() == 0 || begins(t, "#"@) {
        None
    } else {
        match find_from(t, "//"@, 0) {
            None => None,
            Some(k) => {
                let head = trimmed(before(t, k));
                let comment = trimmed(after(t, k + 2));
                let bare = before_value(head);
                let parts = tokens_of(bare, " \t;,"@);
                if comment.len() == 0 || has_text(bare, "("@) || parts.len() == 0 || opens_scope(parts[0]) {
                    None
                } else {
                    let name = bare_name(parts.last());
                    if names_field(name) {
                        Some((name, joined(parts.drop_last(), " "@), comment))
                    } else {
                        None
                    }
                }
            },
        }
    }
}

/// The position of a field with the name and type from `k` on.
pub open spec fn field_position(
    fields: Seq<HalFieldDocView>,
    name: Seq<char>,
    field_type: Seq<char>,
    k: int,
) -> Option<int>
    decreases fields.len() - k,
{
    if k < 0 || k >= fields.len() {
        None
    } else if fields[k].name == name && fields[k].field_type == field_type {
        Some(k)
    } else {
        field_position(fields, name, field_type, k + 1)
    }
}

/// The place of a field among the first `n`.
pub open spec fn field_slot(
    fields: Seq<HalFieldDocView>,
    name: Seq<char>,
    field_type: Seq<char>,
    n: int,
) -> int
    decreases n,
{
    if n > 0 && field_less((name, field_type), (fields[n - 1].name, fields[n - 1].field_type)) {
        field_slot(fields, name, field_type, n - 1)
    } else {
        n
    }
}

/// The fields with one more comment: added to the field of that name and type,
/// or as a new field at its place.
pub open spec fn with_field(
    fields: Seq<HalFieldDocView>,
    name: Seq<char>,
    field_type: Seq<char>,
    comment: Seq<char>,
) -> Seq<HalFieldDocView> {
    match field_position(fields, name, field_type, 0) {
        Some(k) => fields.update(
            k,
            HalFieldDocView { prose: with_prose(fields[k].prose, comment), ..fields[k] },
        ),
        None => fields.insert(
            field_slot(fields, name, field_type, fields.len() as int),
            HalFieldDocView { name, field_type, tags: Seq::empty(), prose: comment },
        ),
    }
}

/// The fields that the first `n` lines declare with a trailing comment.
pub open spec fn inline_fields(rows: Seq<Seq<char>>, n: int) -> Seq<HalFieldDocView>
    decreases n,
{
    if n <= 0 {
        Seq::empty()
    } else {
        let done = inline_fields(rows, n - 1);
        match inline_field(rows[n - 1]) {
            Some((name, field_type, comment)) => with_field(done, name, field_type, comment),
            None => done,
        }
    }
}

fn can_name_field(s: &str) -> (r: bool)
    ensures
        r == names_field(s@),
{
    let chars = chars_of(s);
    if chars.len() == 0 || ('0' <= chars[0] && chars[0] <= '9') {
        return false;
    }
    let mut i: usize = 0;
    while i < chars.len()
        invariant
            chars@ == s@,
            i <= chars@.len(),
            forall|j: int| 0 <= j < i ==> is_name_char(#[trigger] s@[j]),
        decreases chars@.len() - i,
    {
        let c: char = chars[i];
        let named = ('a' <= c && c <= 'z') || ('A' <= c && c <= 'Z') || ('0' <= c && c <= '9') || c == '_';
        if !named {
            assert(!is_name_char(s@[i as int]));
            return false;
        }
        i = i + 1;
    }
    true
}

fn read_inline_field(line: &str) -> (r: Option<(String, String, String)>)
    ensures
        r.deep_view() == inline_field(line@),
{
    proof {
        reveal_strlit("//");
    }
    let t = trim(line);
    if t.unicode_len() == 0 || starts_with(t, "#") {
        return None;
    }
    let k: usize = match find(t, "//") {
        Some(k) => k,
        None => {
            return None;
        },
    };
    let n: usize = t.unicode_len();
    assert(k + 2 <= n);
    let head = trim(head_of(t, k));
    let comment = trim(tail_of(t, k + 2));
    let bare = cut_value(head);
    let mut parts = tokens(bare.as_str(), " \t;,");
    let ghost all = parts.deep_view();
    if comment.unicode_len() == 0 || contains(bare.as_str(), "(") || parts.len() == 0 {
        return None;
    }
    assert(all[0] == parts[0]@);
    let first = parts[0].as_str();
    if same(first, "namespace") || same(first, "class") || same(first, "struct") || same(first, "enum") || same(
        first,
        "union",
    ) || same(first, "using") {
        return None;
    }
    let last = match parts.pop() {
        Some(last) => last,
        None => {
            return None;
        },
    };
    assert(parts.deep_view() =~= all.drop_last());
    let name = name_of_declarator(last.as_str());
    if !can_name_field(name.as_str()) {
        return None;
    }
    Some((name, join(&parts, " "), comment.to_owned()))
}

fn add_field(fields: &mut Vec<HalFieldDoc>, name: String, field_type: String, comment: String)
    ensures
        final(fields).deep_view() == with_field(old(fields).deep_view(), name@, field_type@, comment@),
{
    let ghost start = fields.deep_view();
    let mut k: usize = 0;
    while k < fields.len()
        invariant
            k <= fields@.len(),
            start == fields.deep_view(),
            start == old(fields).deep_view(),
            field_position(start, name@, field_type@, 0) == field_position(
                start,
                name@,
                field_type@,
                k as int,
            ),
        decreases fields@.len() - k,
    {
        if same(fields[k].name.as_str(), name.as_str()) && same(
            fields[k].field_type.as_str(),
            field_type.as_str(),
        ) {
            let mut f = fields[k].clone();
            add_prose(&mut f.prose, comment.as_str());
            fields[k] = f;
            assert(fields.deep_view() =~= with_field(start, name@, field_type@, comment@));
            return;
        }
        k = k + 1;
    }
    let mut n: usize = fields.len();
    while n > 0 && (is_less(name.as_str(), fields[n - 1].name.as_str()) || (same(
        name.as_str(),
        fields[n - 1].name.as_str(),
    ) && is_less(field_type.as_str(), fields[n - 1].field_type.as_str())))
        invariant
            n <= fields@.len(),
            start == fields.deep_view(),
            field_slot(start, name@, field_type@, start.len() as int) == field_slot(
                start,
                name@,
                field_type@,
                n as int,
            ),
        decreases n,
    {
        n = n - 1;
    }
    let tags: Vec<HalDocTag> = Vec::new();
    assert(tags.deep_view() =~= Seq::empty());
    fields.insert(n, HalFieldDoc { name, field_type, tags, prose: comment });
    assert(fields.deep_view() =~= with_field(start, name@, field_type@, comment@));
}

fn fields_on(rows: &Vec<String>) -> (r: Vec<HalFieldDoc>)
    ensures
        r.deep_view() == inline_fields(rows.deep_view(), rows@.len() as int),
{
    let mut out: Vec<HalFieldDoc> = Vec::new();
    assert(out.deep_view() =~= Seq::empty());
    let mut i: usize = 0;
    while i < rows.len()
        invariant
            i <= rows@.len(),
            out.deep_view() == inline_fields(rows.deep_view(), i as int),
        decreases rows@.len() - i,
    {
        match read_inline_field(rows[i].as_str()) {
            Some((name, field_type, comment)) => {
                add_field(&mut out, name, field_type, comment);
            },
            None => {},
        }
        i = i + 1;
    }
    out
}

/// The fields that carry a trailing comment (`int w = 0; // width`), in
/// dictionary order of name and type; comments of one field are put together.
pub fn inline_field_docs(content: &str) -> (r: Vec<HalFieldDoc>)
    ensures
        r.deep_view() == inline_fields(line_seq(content@), line_seq(content@).len() as int),
{
    let rows = lines(content);
    assert(rows.deep_view().len() == rows@.len());
    fields_on(&rows)
}

/// The fields that carry a trailing comment and none above.
pub open spec fn lone_fields(content: Seq<char>) -> Seq<HalFieldDocView> {
    let rows = rows_without_docs(line_seq(content), line_seq(content).len() as int);
    inline_fields(rows, rows.len() as int)
}

/// The comments of a header, each with its declaration, and the fields that carry
/// a trailing comment and none above.
pub fn field_docs(content: &str) -> (r: (Vec<HalDoc>, Vec<HalFieldDoc>))
    ensures
        r.0.deep_view() == docs_of(content@),
        r.1.deep_view() == lone_fields(content@),
{
    let (docs, rows) = read_header(content);
    assert(rows.deep_view().len() == rows@.len());
    (docs, fields_on(&rows))
}

// ---------------------------------------------------------------------------
// Texts made of comments
// ---------------------------------------------------------------------------

/// One tag of a comment block.
pub open spec fn tag_line(t: HalDocTagView) -> Seq<char> {
    if t.value.len() == 0 {
        if t.key == "param"@ {
            t.name + " <name>"@ + "\n"@
        } else {
            t.name + "\n"@
        }
    } else {
        t.name + " "@ + t.value + "\n"@
    }
}

/// The lines of the first `n` tags behind `head`.
pub open spec fn tag_lines(head: Seq<char>, tags: Seq<HalDocTagView>, n: int) -> Seq<char>
    decreases n,
{
    if n <= 0 {
        head
    } else {
        tag_lines(head, tags, n - 1) + tag_line(tags[n - 1])
    }
}

/// The block of the first `n` comments.
pub open spec fn doc_block(docs: Seq<HalDocView>, n: int) -> Seq<char>
    decreases n,
{
    if n <= 0 {
        Seq::empty()
    } else {
        let d = docs[n - 1];
        let head = doc_block(docs, n - 1) + ("--- "@
            + d.target
            + " ("@
            + d.kind
            + ") ---\n"@);
        let tagged = tag_lines(head, d.tags, d.tags.len() as int);
        if d.prose.len() == 0 {
            tagged
        } else {
            tagged + (d.prose + "\n"@)
        }
    }
}

fn write_tag_line(t: &HalDocTag) -> (r: String)
    ensures
        r@ == tag_line(t.deep_view()),
{
    let mut s = t.name.clone();
    if t.value.as_str().unicode_len() == 0 {
        if same(t.key.as_str(), "param") {
            s.append(" <name>");
        }
        s.append("\n");
    } else {
        s.append(" ");
        s.append(t.value.as_str());
        s.append("\n");
    }
    s
}

/// Comments as one compact block: a header line for each declaration, its tags
/// and its prose.
pub fn hal_doc_block(docs: &Vec<HalDoc>) -> (r: String)
    ensures
        r@ == doc_block(docs.deep_view(), docs@.len() as int),
{
    let ghost all = docs.deep_view();
    let mut out = String::new();
    let mut i: usize = 0;
    while i < docs.len()
        invariant
            i <= docs@.len(),
            all == docs.deep_view(),
            out@ == doc_block(all, i as int),
        decreases docs@.len() - i,
    {
        let d = &docs[i];
        let mut title = "--- ".to_owned();
        title.append(d.target.as_str());
        title.append(" (");
        title.append(d.kind.as_str());
        title.append(") ---\n");
        out.append(title.as_str());
        let ghost head = out@;
        let ghost tags = all[i as int].tags;
        let mut k: usize = 0;
        while k < d.tags.len()
            invariant
                k <= d.tags@.len(),
                tags == d.tags.deep_view(),
                out@ == tag_lines(head, tags, k as int),
            decreases d.tags@.len() - k,
        {
            out.append(write_tag_line(&d.tags[k]).as_str());
            k = k + 1;
        }
        if d.prose.as_str().unicode_len() > 0 {
            let mut row = d.prose.clone();
            row.append("\n");
            out.append(row.as_str());
        }
        i = i + 1;
    }
    out
}

/// One tag of a prompt block.
pub open spec fn prompt_tag(t: HalDocTagView) -> Seq<char> {
    if t.key.len() == 0 || t.key == trim_lead(t.name, Some("@"@)) {
        "    "@
            + t.name
            + ": "@
            + t.value
            + "\n"@
    } else {
        "    "@
            + t.name
            + " "@
            + t.key
            + ": "@
            + t.value
            + "\n"@
    }
}

/// The prompt lines of the first `n` tags behind `head`.
pub open spec fn prompt_tags(head: Seq<char>, tags: Seq<HalDocTagView>, n: int) -> Seq<char>
    decreases n,
{
    if n <= 0 {
        head
    } else {
        prompt_tags(head, tags, n - 1) + prompt_tag(tags[n - 1])
    }
}

/// The prompt lines of the first `n` comments.
pub open spec fn prompt_lines(docs: Seq<HalDocView>, n: int) -> Seq<char>
    decreases n,
{
    if n <= 0 {
        Seq::empty()
    } else {
        let d = docs[n - 1];
        prompt_tags(
            prompt_lines(docs, n - 1) + ("["@
            + d.kind
            + "/"@
            + d.target
            + "] "@
            + trimmed(d.prose)
            + "\n"@),
            d.tags,
            d.tags.len() as int,
        )
    }
}

/// Comments as the text of a prompt.
pub open spec fn prompt_text(docs: Seq<HalDocView>) -> Seq<char> {
    trimmed_end(prompt_lines(docs, docs.len() as int))
}

fn write_prompt_tag(t: &HalDocTag) -> (r: String)
    ensures
        r@ == prompt_tag(t.deep_view()),
{
    let mut s = "    ".to_owned();
    s.append(t.name.as_str());
    if !(t.key.as_str().unicode_len() == 0 || same(
        t.key.as_str(),
        cut_lead(t.name.as_str(), Some("@")),
    )) {
        s.append(" ");
        s.append(t.key.as_str());
    }
    s.append(": ");
    s.append(t.value.as_str());
    s.append("\n");
    s
}

/// Comments as the text of a prompt: one line for each declaration, its tags
/// indented below it.
pub fn hal_docs_to_prompt_text(docs: &Vec<HalDoc>) -> (r: String)
    ensures
        r@ == prompt_text(docs.deep_view()),
{
    let ghost all = docs.deep_view();
    let mut out = String::new();
    let mut i: usize = 0;
    while i < docs.len()
        invariant
            i <= docs@.len(),
            all == docs.deep_view(),
            out@ == prompt_lines(all, i as int),
        decreases docs@.len() - i,
    {
        let d = &docs[i];
        let mut title = "[".to_owned();
        title.append(d.kind.as_str());
        title.append("/");
        title.append(d.target.as_str());
        title.append("] ");
        title.append(trim(d.prose.as_str()));
        title.append("\n");
        out.append(title.as_str());
        let ghost head = out@;
        let ghost tags = all[i as int].tags;
        let mut k: usize = 0;
        while k < d.tags.len()
            invariant
                k <= d.tags@.len(),
                tags == d.tags.deep_view(),
                out@ == prompt_tags(head, tags, k as int),
            decreases d.tags@.len() - k,
        {
            out.append(write_prompt_tag(&d.tags[k]).as_str());
            k = k + 1;
        }
        i = i + 1;
    }
    trim_end(out.as_str()).to_owned()
}

/// The prompt sections of the first `n` headers of a directory.
pub open spec fn datatype_sections(
    t: ProjectTreeView,
    dir: Seq<char>,
    names: Seq<Seq<char>>,
    n: int,
) -> Seq<char>
    decreases n,
{
    if n <= 0 {
        Seq::empty()
    } else {
        let done = datatype_sections(t, dir, names, n - 1);
        let name = names[n - 1];
        if !has_extension(name, "hpp"@) && !has_extension(name, "h"@) {
            done
        } else {
            match content_at(t, path_join(dir, name)) {
                None => done,
                Some(content) => {
                    let text = prompt_text(docs_of(content));
                    if text.len() == 0 {
                        done
                    } else {
                        done + ("## "@
            + name
            + "\n"@
            + text
            + "\n"@)
                    }
                },
            }
        }
    }
}

/// The comments of every header below `hal/types` as one prompt block, empty
/// where there are none.
pub fn datatype_docs_to_prompt_text(tree: &ProjectTree) -> (r: String)
    ensures
        r@ == trimmed_end(
            if dir_at(tree.deep_view(), "hal/types"@) {
                datatype_sections(
                    tree.deep_view(),
                    "hal/types"@,
                    names_in(tree.deep_view(), "hal/types"@),
                    names_in(tree.deep_view(), "hal/types"@).len() as int,
                )
            } else {
                Seq::empty()
            },
        ),
{
    let ghost t = tree.deep_view();
    let mut out = String::new();
    assert(out@ =~= Seq::empty());
    if tree.is_dir("hal/types") {
        let names = tree.list("hal/types");
        let mut i: usize = 0;
        while i < names.len()
            invariant
                i <= names@.len(),
                t == tree.deep_view(),
                out@ == datatype_sections(t, "hal/types"@, names.deep_view(), i as int),
            decreases names@.len() - i,
        {
            let name = names[i].as_str();
            if with_extension(name, "hpp") || with_extension(name, "h") {
                match tree.read(join_path("hal/types", name).as_str()) {
                    None => {},
                    Some(content) => {
                        let text = hal_docs_to_prompt_text(&parse_hal_docs(content.as_str()));
                        if text.as_str().unicode_len() > 0 {
                            let mut section = "## ".to_owned();
                            section.append(name);
                            section.append("\n");
                            section.append(text.as_str());
                            section.append("\n");
                            out.append(section.as_str());
                        }
                    },
                }
            }
            i = i + 1;
        }
    }
    trim_end(out.as_str()).to_owned()
}

// ---------------------------------------------------------------------------
// Linting
// ---------------------------------------------------------------------------

/// One documentation issue.
#[derive(Debug, PartialEq, Eq)]
pub struct HalDocLintIssue {
    /// `error` or `warning`.
    pub severity: String,
    pub title: String,
    pub path: String,
    /// The class, method or tag it belongs to.
    pub symbol: String,
    pub message: String,
    /// The request that asks for the corrected comment.
    pub fix_prompt: String,
}

/// What a [`HalDocLintIssue`] holds.
#[verifier::ext_equal]
pub struct HalDocLintIssueView {
    pub severity: Seq<char>,
    pub title: Seq<char>,
    pub path: Seq<char>,
    pub symbol: Seq<char>,
    pub message: Seq<char>,
    pub fix_prompt: Seq<char>,
}

impl DeepView for HalDocLintIssue {
    type V = HalDocLintIssueView;

    open spec fn deep_view(&self) -> HalDocLintIssueView {
        HalDocLintIssueView {
            severity: self.severity@,
            title: self.title@,
            path: self.path@,
            symbol: self.symbol@,
            message: self.message@,
            fix_prompt: self.fix_prompt@,
        }
    }
}

impl Clone for HalDocLintIssue {
    fn clone(&self) -> (r: Self)
        ensures
            r.deep_view() == self.deep_view(),
    {
        HalDocLintIssue {
            severity: self.severity.clone(),
            title: self.title.clone(),
            path: self.path.clone(),
            symbol: self.symbol.clone(),
            message: self.message.clone(),
            fix_prompt: self.fix_prompt.clone(),
        }
    }
}

/// A copy of a list of [`HalDocLintIssue`] values.
pub fn copy_hal_doc_lint_issues(v: &Vec<HalDocLintIssue>) -> (r: Vec<HalDocLintIssue>)
    ensures
        r.deep_view() == v.deep_view(),
{
    let mut out: Vec<HalDocLintIssue> = Vec::new();
    let mut i: usize = 0;
    while i < v.len()
        invariant
            i <= v@.len(),
            out.deep_view() == v.deep_view().take(i as int),
        decreases v@.len() - i,
    {
        add_item(&mut out, v[i].clone());
        assert(v.deep_view().take(i + 1) =~= v.deep_view().take(i as int).push(v[i as int].deep_view()));
        i = i + 1;
    }
    assert(v.deep_view().take(v@.len() as int) =~= v.deep_view());
    out
}

/// The issues of one header.
#[derive(Debug, PartialEq, Eq)]
pub struct HalDocLintFile {
    pub path: String,
    pub issues: Vec<HalDocLintIssue>,
}

/// What a [`HalDocLintFile`] holds.
#[verifier::ext_equal]
pub struct HalDocLintFileView {
    pub path: Seq<char>,
    pub issues: Seq<HalDocLintIssueView>,
}

impl DeepView for HalDocLintFile {
    type V = HalDocLintFileView;

    open spec fn deep_view(&self) -> HalDocLintFileView {
        HalDocLintFileView {
            path: self.path@,
            issues: self.issues.deep_view(),
        }
    }
}

impl Clone for HalDocLintFile {
    fn clone(&self) -> (r: Self)
        ensures
            r.deep_view() == self.deep_view(),
    {
        HalDocLintFile {
            path: self.path.clone(),
            issues: copy_hal_doc_lint_issues(&self.issues),
        }
    }
}

/// The issues of all contract headers.
#[derive(Debug, PartialEq, Eq)]
pub struct HalDocLintReport {
    pub files: Vec<HalDocLintFile>,
}

/// What a [`HalDocLintReport`] holds.
#[verifier::ext_equal]
pub struct HalDocLintReportView {
    pub files: Seq<HalDocLintFileView>,
}

impl DeepView for HalDocLintReport {
    type V = HalDocLintReportView;

    open spec fn deep_view(&self) -> HalDocLintReportView {
        HalDocLintReportView {
            files: self.files.deep_view(),
        }
    }
}

/// A comment has the tag.
pub open spec fn has_tag(tags: Seq<HalDocTagView>, name: Seq<char>) -> bool {
    exists|i: int| 0 <= i < tags.len() && #[trigger] tags[i].name == name
}

/// A comment has a `@param` for the parameter.
pub open spec fn has_param(tags: Seq<HalDocTagView>, key: Seq<char>) -> bool {
    exists|i: int|
        0 <= i < tags.len() && (#[trigger] tags[i]).name == "@param"@ && tags[i].key == key
}

/// The tags of the comment on the target, where there is one.
pub open spec fn tags_or_none(doc: Option<HalDocView>) -> Seq<HalDocTagView> {
    match doc {
        Some(d) => d.tags,
        None => Seq::empty(),
    }
}

/// The first comment on the target from `k` on.
pub open spec fn doc_from(docs: Seq<HalDocView>, target: Seq<char>, k: int) -> Option<HalDocView>
    decreases docs.len() - k,
{
    if k < 0 || k >= docs.len() {
        None
    } else if docs[k].target == target {
        Some(docs[k])
    } else {
        doc_from(docs, target, k + 1)
    }
}

/// The first comment on the target.
pub open spec fn doc_on(docs: Seq<HalDocView>, target: Seq<char>) -> Option<HalDocView> {
    doc_from(docs, target, 0)
}

/// One of the classes has the name.
pub open spec fn is_class(
    classes: Seq<(Seq<char>, Seq<HalContractMethodView>)>,
    name: Seq<char>,
) -> bool {
    exists|i: int| 0 <= i < classes.len() && (#[trigger] classes[i]).0 == name
}

/// The first comment on one of the classes from `k` on.
pub open spec fn class_doc_from(
    docs: Seq<HalDocView>,
    classes: Seq<(Seq<char>, Seq<HalContractMethodView>)>,
    k: int,
) -> Option<HalDocView>
    decreases docs.len() - k,
{
    if k < 0 || k >= docs.len() {
        None
    } else if is_class(classes, docs[k].target) {
        Some(docs[k])
    } else {
        class_doc_from(docs, classes, k + 1)
    }
}

/// The index of the first comment on the target.
pub fn find_doc(docs: &Vec<HalDoc>, target: &str) -> (r: Option<usize>)
    ensures
        (match r {
            Some(k) => k < docs.len() && doc_on(docs.deep_view(), target@) == Some(
                docs.deep_view()[k as int],
            ),
            None => doc_on(docs.deep_view(), target@) is None,
        }),
{
    let mut k: usize = 0;
    while k < docs.len()
        invariant
            k <= docs@.len(),
            doc_on(docs.deep_view(), target@) == doc_from(docs.deep_view(), target@, k as int),
        decreases docs@.len() - k,
    {
        if same(docs[k].target.as_str(), target) {
            return Some(k);
        }
        k = k + 1;
    }
    None
}

fn names_class(classes: &Vec<(String, Vec<HalContractMethod>)>, name: &str) -> (r: bool)
    ensures
        r == is_class(classes.deep_view(), name@),
{
    let ghost all = classes.deep_view();
    let mut i: usize = 0;
    while i < classes.len()
        invariant
            i <= classes@.len(),
            all == classes.deep_view(),
            forall|j: int| 0 <= j < i ==> (#[trigger] all[j]).0 != name@,
        decreases classes@.len() - i,
    {
        if same(classes[i].0.as_str(), name) {
            assert(all[i as int].0 == name@);
            return true;
        }
        i = i + 1;
    }
    false
}

/// The index of the first comment on one of the classes.
pub fn find_class_doc(
    docs: &Vec<HalDoc>,
    classes: &Vec<(String, Vec<HalContractMethod>)>,
) -> (r: Option<usize>)
    ensures
        (match r {
            Some(k) => k < docs.len() && class_doc_from(
                docs.deep_view(),
                classes.deep_view(),
                0,
            ) == Some(docs.deep_view()[k as int]),
            None => class_doc_from(docs.deep_view(), classes.deep_view(), 0) is None,
        }),
{
    let mut k: usize = 0;
    while k < docs.len()
        invariant
            k <= docs@.len(),
            class_doc_from(docs.deep_view(), classes.deep_view(), 0) == class_doc_from(
                docs.deep_view(),
                classes.deep_view(),
                k as int,
            ),
        decreases docs@.len() - k,
    {
        if names_class(classes, docs[k].target.as_str()) {
            return Some(k);
        }
        k = k + 1;
    }
    None
}

/// Whether the tags hold one of the name.
pub fn tagged(tags: &Vec<HalDocTag>, name: &str) -> (r: bool)
    ensures
        r == has_tag(tags.deep_view(), name@),
{
    let ghost all = tags.deep_view();
    let mut i: usize = 0;
    while i < tags.len()
        invariant
            i <= tags@.len(),
            all == tags.deep_view(),
            forall|j: int| 0 <= j < i ==> (#[trigger] all[j]).name != name@,
        decreases tags@.len() - i,
    {
        if same(tags[i].name.as_str(), name) {
            assert(all[i as int].name == name@);
            return true;
        }
        i = i + 1;
    }
    false
}

fn documents_param(tags: &Vec<HalDocTag>, key: &str) -> (r: bool)
    ensures
        r == has_param(tags.deep_view(), key@),
{
    let ghost all = tags.deep_view();
    let mut i: usize = 0;
    while i < tags.len()
        invariant
            i <= tags@.len(),
            all == tags.deep_view(),
            forall|j: int|
                0 <= j < i ==> !((#[trigger] all[j]).name == "@param"@ && all[j].key == key@),
        decreases tags@.len() - i,
    {
        if same(tags[i].name.as_str(), "@param") && same(tags[i].key.as_str(), key) {
            assert(all[i as int].name == "@param"@ && all[i as int].key == key@);
            return true;
        }
        i = i + 1;
    }
    false
}

/// The issues of a contract class: no `@brief`, no `@id`.
pub open spec fn class_issues(tags: Seq<HalDocTagView>, path: Seq<char>, symbol: Seq<char>) -> Seq<
    HalDocLintIssueView,
> {
    let brief = HalDocLintIssueView {
        severity: "error"@,
        title: "contract missing @brief"@,
        path,
        symbol: symbol,
        message: "class-level doc block lacks a `@brief`"@,
        fix_prompt: "Write a one-line `/// @brief` describing this HAL contract."@,
    };
    let id = HalDocLintIssueView {
        severity: "error"@,
        title: "contract missing @id"@,
        path,
        symbol: symbol,
        message: "class-level doc block lacks an `@id` (e.g. hal.camera)"@,
        fix_prompt: "Write `/// @id <module-id>` (e.g. hal.camera)."@,
    };
    let first = if has_tag(tags, "@brief"@) {
        Seq::empty()
    } else {
        seq![brief]
    };
    if has_tag(tags, "@id"@) {
        first
    } else {
        first.push(id)
    }
}

fn new_issue(
    severity: &str,
    title: &str,
    path: &str,
    symbol: &str,
    message: String,
    fix_prompt: String,
) -> (r: HalDocLintIssue)
    ensures
        r.deep_view() == (HalDocLintIssueView {
            severity: severity@,
            title: title@,
            path: path@,
            symbol: symbol@,
            message: message@,
            fix_prompt: fix_prompt@,
        }),
{
    HalDocLintIssue {
        severity: severity.to_owned(),
        title: title.to_owned(),
        path: path.to_owned(),
        symbol: symbol.to_owned(),
        message,
        fix_prompt,
    }
}

fn lint_class(tags: &Vec<HalDocTag>, path: &str, symbol: &str) -> (r: Vec<HalDocLintIssue>)
    ensures
        r.deep_view() == class_issues(tags.deep_view(), path@, symbol@),
{
    let mut out: Vec<HalDocLintIssue> = Vec::new();
    assert(out.deep_view() =~= Seq::empty());
    if !tagged(tags, "@brief") {
        add_item(
            &mut out,
            new_issue(
                "error",
                "contract missing @brief",
                path,
                symbol,
                "class-level doc block lacks a `@brief`".to_owned(),
                "Write a one-line `/// @brief` describing this HAL contract.".to_owned(),
            ),
        );
    }
    if !tagged(tags, "@id") {
        add_item(
            &mut out,
            new_issue(
                "error",
                "contract missing @id",
                path,
                symbol,
                "class-level doc block lacks an `@id` (e.g. hal.camera)".to_owned(),
                "Write `/// @id <module-id>` (e.g. hal.camera).".to_owned(),
            ),
        );
    }
    assert(out.deep_view() =~= class_issues(tags.deep_view(), path@, symbol@));
    out
}

/// A word made of letters, digits and underscores.
pub open spec fn is_identifier(w: Seq<char>) -> bool {
    w.len() > 0 && forall|i: int|
        0 <= i < w.len() ==> alphanumeric(#[trigger] w[i]) || w[i] == '_'
}

/// The name of a parameter, where it has one: the last word, with a type before it.
pub open spec fn param_name(p: Seq<char>) -> Option<Seq<char>> {
    let list = param_words(p);
    let w = bare_name(last_or_empty(list));
    if list.len() > 0 && holds_type(list, list.len() - 1) && is_identifier(w) && !is_type_word(w) {
        Some(w)
    } else {
        None
    }
}

/// The names of the first `n` parameters.
pub open spec fn param_names(parts: Seq<Seq<char>>, n: int) -> Seq<Seq<char>>
    decreases n,
{
    if n <= 0 {
        Seq::empty()
    } else {
        let done = param_names(parts, n - 1);
        match param_name(parts[n - 1]) {
            Some(w) => done.push(w),
            None => done,
        }
    }
}

/// The names of the parameters in a list.
pub open spec fn names_in_params(params: Seq<char>) -> Seq<Seq<char>> {
    let parts = pieces(without_defaults(params), ',');
    param_names(parts, parts.len() as int)
}

fn identifier(w: &str) -> (r: bool)
    ensures
        r == is_identifier(w@),
{
    let chars = chars_of(w);
    if chars.len() == 0 {
        return false;
    }
    let mut i: usize = 0;
    while i < chars.len()
        invariant
            chars@ == w@,
            i <= chars@.len(),
            forall|j: int| 0 <= j < i ==> alphanumeric(#[trigger] w@[j]) || w@[j] == '_',
        decreases chars@.len() - i,
    {
        let c: char = chars[i];
        if !(is_alphanumeric(c) || c == '_') {
            assert(!(alphanumeric(w@[i as int]) || w@[i as int] == '_'));
            return false;
        }
        i = i + 1;
    }
    true
}

fn name_of_param(p: &str) -> (r: Option<String>)
    ensures
        r.deep_view() == param_name(p@),
{
    let list = words_of_param(p);
    let w = name_of_declarator(last_text(&list).as_str());
    if list.len() > 0 && some_type(&list, list.len() - 1) && identifier(w.as_str()) && !is_of_type(w.as_str()) {
        Some(w)
    } else {
        None
    }
}

fn names_of_params(params: &str) -> (r: Vec<String>)
    ensures
        r.deep_view() == names_in_params(params@),
{
    let parts = split(drop_defaults(params).as_str(), ',');
    let mut out: Vec<String> = Vec::new();
    assert(out.deep_view() =~= Seq::empty());
    let mut i: usize = 0;
    while i < parts.len()
        invariant
            i <= parts@.len(),
            out.deep_view() == param_names(parts.deep_view(), i as int),
        decreases parts@.len() - i,
    {
        if let Some(w) = name_of_param(parts[i].as_str()) {
            add_item(&mut out, w);
        }
        i = i + 1;
    }
    out
}

/// The issue of a method without `@brief`.
pub open spec fn brief_issue(m: HalContractMethodView, path: Seq<char>, symbol: Seq<char>) -> HalDocLintIssueView {
    let given = if m.return_type.len() == 0 {
        "void"@
    } else {
        m.return_type
    };
    HalDocLintIssueView {
        severity: "error"@,
        title: "method missing @brief"@,
        path,
        symbol: symbol,
        message: m.name + " missing `@brief` in the graph"@,
        fix_prompt: "Write a one-line `/// @brief` for `"@
            + m.name
            + "` (returns "@
            + given
            + ")."@,
    }
}

/// The issue of an undocumented parameter.
pub open spec fn param_issue(
    m: HalContractMethodView,
    p: Seq<char>,
    path: Seq<char>,
    symbol: Seq<char>,
) -> HalDocLintIssueView {
    HalDocLintIssueView {
        severity: "error"@,
        title: "method missing @param"@,
        path,
        symbol: symbol,
        message: m.name
            + " parameter `"@
            + p
            + "` undocumented"@,
        fix_prompt: "Write `/// @param "@
            + p
            + " <description>` for the `"@
            + p
            + "` parameter of `"@
            + m.name
            + "`."@,
    }
}

/// The issue of a method without `@return`.
pub open spec fn return_issue(m: HalContractMethodView, path: Seq<char>, symbol: Seq<char>) -> HalDocLintIssueView {
    HalDocLintIssueView {
        severity: "error"@,
        title: "method missing @return"@,
        path,
        symbol: symbol,
        message: m.name
            + " returns `"@
            + m.return_type
            + "` but has no `@return`"@,
        fix_prompt: "Write `/// @return <description>` for the `"@
            + m.return_type
            + "` return value of `"@
            + m.name
            + "`."@,
    }
}

/// The issues of the first `n` parameters.
pub open spec fn param_issues(
    m: HalContractMethodView,
    names: Seq<Seq<char>>,
    tags: Seq<HalDocTagView>,
    path: Seq<char>,
    symbol: Seq<char>,
    n: int,
) -> Seq<HalDocLintIssueView>
    decreases n,
{
    if n <= 0 {
        Seq::empty()
    } else {
        let done = param_issues(m, names, tags, path, symbol, n - 1);
        if has_param(tags, names[n - 1]) {
            done
        } else {
            done.push(param_issue(m, names[n - 1], path, symbol))
        }
    }
}

/// The issues of one method of a class.
pub open spec fn method_issues(
    docs: Seq<HalDocView>,
    class: Seq<char>,
    m: HalContractMethodView,
    path: Seq<char>,
) -> Seq<HalDocLintIssueView> {
    let symbol = class + "::"@ + m.name;
    let tags = tags_or_none(doc_on(docs, m.name));
    let names = names_in_params(m.params);
    let brief = if has_tag(tags, "@brief"@) {
        Seq::empty()
    } else {
        seq![brief_issue(m, path, symbol)]
    };
    let params = param_issues(m, names, tags, path, symbol, names.len() as int);
    let owed = if m.return_type.len() > 0 && m.return_type != "void"@ && !has_tag(
        tags,
        "@return"@,
    ) {
        seq![return_issue(m, path, symbol)]
    } else {
        Seq::empty()
    };
    brief + params + owed
}

fn lint_method(docs: &Vec<HalDoc>, class: &str, m: &HalContractMethod, path: &str) -> (r: Vec<
    HalDocLintIssue,
>)
    ensures
        r.deep_view() == method_issues(docs.deep_view(), class@, m.deep_view(), path@),
{
    let mut symbol = class.to_owned();
    symbol.append("::");
    symbol.append(m.name.as_str());
    let tags = match find_doc(docs, m.name.as_str()) {
        Some(k) => copy_hal_doc_tags(&docs[k].tags),
        None => Vec::new(),
    };
    assert(tags.deep_view() =~= tags_or_none(doc_on(docs.deep_view(), m.name@)));
    let ghost view = tags.deep_view();
    let mut out: Vec<HalDocLintIssue> = Vec::new();
    assert(out.deep_view() =~= Seq::empty());
    if !tagged(&tags, "@brief") {
        let given = if m.return_type.as_str().unicode_len() == 0 {
            "void"
        } else {
            m.return_type.as_str()
        };
        let mut message = m.name.as_str().to_owned();
        message.append(" missing `@brief` in the graph");
        let mut fix = "Write a one-line `/// @brief` for `".to_owned();
        fix.append(m.name.as_str());
        fix.append("` (returns ");
        fix.append(given);
        fix.append(").");
        add_item(
            &mut out,
            new_issue("error", "method missing @brief", path, symbol.as_str(), message, fix),
        );
    }
    let ghost brief = out.deep_view();
    assert(brief =~= if has_tag(view, "@brief"@) {
        Seq::empty()
    } else {
        seq![brief_issue(m.deep_view(), path@, symbol@)]
    });
    let names = names_of_params(m.params.as_str());
    let ghost list = names.deep_view();
    let mut i: usize = 0;
    assert(brief + param_issues(m.deep_view(), list, view, path@, symbol@, 0) =~= brief);
    while i < names.len()
        invariant
            i <= names@.len(),
            list == names.deep_view(),
            view == tags.deep_view(),
            out.deep_view() == brief + param_issues(
                m.deep_view(),
                list,
                view,
                path@,
                symbol@,
                i as int,
            ),
        decreases names@.len() - i,
    {
        let p = names[i].as_str();
        if !documents_param(&tags, p) {
            let ghost done = param_issues(m.deep_view(), list, view, path@, symbol@, i as int);
            let mut message = m.name.as_str().to_owned();
            message.append(" parameter `");
            message.append(p);
            message.append("` undocumented");
            let mut fix = "Write `/// @param ".to_owned();
            fix.append(p);
            fix.append(" <description>` for the `");
            fix.append(p);
            fix.append("` parameter of `");
            fix.append(m.name.as_str());
            fix.append("`.");
            let issue = new_issue(
                "error",
                "method missing @param",
                path,
                symbol.as_str(),
                message,
                fix,
            );
            add_item(&mut out, issue);
            assert((brief + done).push(issue.deep_view()) =~= brief + done.push(issue.deep_view()));
        }
        i = i + 1;
    }
    let ghost params = param_issues(m.deep_view(), list, view, path@, symbol@, list.len() as int);
    if m.return_type.as_str().unicode_len() > 0 && !same(m.return_type.as_str(), "void")
        && !tagged(&tags, "@return") {
        let mut message = m.name.as_str().to_owned();
        message.append(" returns `");
        message.append(m.return_type.as_str());
        message.append("` but has no `@return`");
        let mut fix = "Write `/// @return <description>` for the `".to_owned();
        fix.append(m.return_type.as_str());
        fix.append("` return value of `");
        fix.append(m.name.as_str());
        fix.append("`.");
        let issue = new_issue(
            "error",
            "method missing @return",
            path,
            symbol.as_str(),
            message,
            fix,
        );
        add_item(&mut out, issue);
        assert((brief + params).push(issue.deep_view()) =~= brief + params + seq![
            issue.deep_view(),
        ]);
    } else {
        assert(brief + params + Seq::<HalDocLintIssueView>::empty() =~= brief + params);
    }
    out
}

/// The issues of the first `n` methods of a class.
pub open spec fn methods_issues(
    docs: Seq<HalDocView>,
    class: Seq<char>,
    methods: Seq<HalContractMethodView>,
    path: Seq<char>,
    n: int,
) -> Seq<HalDocLintIssueView>
    decreases n,
{
    if n <= 0 {
        Seq::empty()
    } else {
        methods_issues(docs, class, methods, path, n - 1) + method_issues(
            docs,
            class,
            methods[n - 1],
            path,
        )
    }
}

/// The issues of the methods of the first `n` classes.
pub open spec fn classes_issues(
    docs: Seq<HalDocView>,
    classes: Seq<(Seq<char>, Seq<HalContractMethodView>)>,
    path: Seq<char>,
    n: int,
) -> Seq<HalDocLintIssueView>
    decreases n,
{
    if n <= 0 {
        Seq::empty()
    } else {
        classes_issues(docs, classes, path, n - 1) + methods_issues(
            docs,
            classes[n - 1].0,
            classes[n - 1].1,
            path,
            classes[n - 1].1.len() as int,
        )
    }
}

fn lint_methods(
    docs: &Vec<HalDoc>,
    classes: &Vec<(String, Vec<HalContractMethod>)>,
    path: &str,
) -> (r: Vec<HalDocLintIssue>)
    ensures
        r.deep_view() == classes_issues(
            docs.deep_view(),
            classes.deep_view(),
            path@,
            classes@.len() as int,
        ),
{
    let ghost all = classes.deep_view();
    let mut out: Vec<HalDocLintIssue> = Vec::new();
    assert(out.deep_view() =~= Seq::empty());
    let mut i: usize = 0;
    while i < classes.len()
        invariant
            i <= classes@.len(),
            all == classes.deep_view(),
            out.deep_view() == classes_issues(docs.deep_view(), all, path@, i as int),
        decreases classes@.len() - i,
    {
        let methods = &classes[i].1;
        let mut part: Vec<HalDocLintIssue> = Vec::new();
        assert(part.deep_view() =~= Seq::empty());
        assert(all[i as int].1 == methods.deep_view());
        let mut k: usize = 0;
        while k < methods.len()
            invariant
                k <= methods@.len(),
                i < classes@.len(),
                all == classes.deep_view(),
                part.deep_view() == methods_issues(
                    docs.deep_view(),
                    all[i as int].0,
                    methods.deep_view(),
                    path@,
                    k as int,
                ),
            decreases methods@.len() - k,
        {
            let more = lint_method(docs, classes[i].0.as_str(), &methods[k], path);
            add_items(&mut part, more);
            k = k + 1;
        }
        add_items(&mut out, part);
        i = i + 1;
    }
    out
}

/// The tag is one that HAL comments know.
pub open spec fn is_known_tag(tag: Seq<char>) -> bool {
    ||| tag == "@brief"@
    ||| tag == "@id"@
    ||| tag == "@param"@
    ||| tag == "@return"@
    ||| tag == "@lifespan"@
    ||| tag == "@ownership"@
    ||| tag == "@zero-copy"@
    ||| tag == "@platform-note"@
    ||| tag == "@thread-safety"@
    ||| tag == "@performance"@
    ||| tag == "@error"@
    ||| tag == "@note"@
}

fn knows_tag(tag: &str) -> (r: bool)
    ensures
        r == is_known_tag(tag@),
{
    same(tag, "@brief") || same(tag, "@id") || same(tag, "@param") || same(tag, "@return") || same(
        tag,
        "@lifespan",
    ) || same(tag, "@ownership") || same(tag, "@zero-copy") || same(tag, "@platform-note") || same(
        tag,
        "@thread-safety",
    ) || same(tag, "@performance") || same(tag, "@error") || same(tag, "@note")
}

/// The tag that a word starts with: up to a parenthesis.
pub open spec fn tag_part(word: Seq<char>) -> Seq<char> {
    pieces(word, '(')[0]
}

/// The first unknown tag among the words from `k` on.
pub open spec fn unknown_from(list: Seq<Seq<char>>, k: int) -> Option<Seq<char>>
    decreases list.len() - k,
{
    if k < 0 || k >= list.len() {
        None
    } else if begins(list[k], "@"@) && !is_known_tag(tag_part(list[k])) {
        Some(tag_part(list[k]))
    } else {
        unknown_from(list, k + 1)
    }
}

/// A documentation block is open behind the trimmed line `t`.
pub open spec fn block_behind(open: bool, t: Seq<char>) -> bool {
    if open {
        !has_text(t, "*/"@)
    } else {
        begins(t, "/**"@) && !begins(t, "/**/"@) && !has_text(after(t, 3), "*/"@)
    }
}

/// A documentation block is open behind the first `n` lines.
pub open spec fn block_open(rows: Seq<Seq<char>>, n: int) -> bool
    decreases n,
{
    n > 0 && block_behind(block_open(rows, n - 1), trimmed(rows[n - 1]))
}

/// The first unknown tag of a line, where it is one of a comment: it starts one, or
/// a documentation block is open.
pub open spec fn unknown_tag(line: Seq<char>, open: bool) -> Option<Seq<char>> {
    let t = trimmed(line);
    if open || begins(t, "//"@) || begins(t, "/**"@) {
        unknown_from(word_seq(trimmed(trim_lead(t, Some("/*"@)))), 0)
    } else {
        None
    }
}

/// The issue of an unknown tag.
pub open spec fn unknown_issue(tag: Seq<char>, path: Seq<char>) -> HalDocLintIssueView {
    HalDocLintIssueView {
        severity: "warning"@,
        title: "unknown doc tag"@,
        path,
        symbol: tag,
        message: "unknown tag `"@ + tag + "`"@,
        fix_prompt: "Replace `"@ + tag + "` with a whitelisted HAL tag or remove it."@,
    }
}

/// The unknown tags of the first `n` lines, one at most for a line.
pub open spec fn tag_issues(rows: Seq<Seq<char>>, path: Seq<char>, n: int) -> Seq<HalDocLintIssueView>
    decreases n,
{
    if n <= 0 {
        Seq::empty()
    } else {
        let done = tag_issues(rows, path, n - 1);
        match unknown_tag(rows[n - 1], block_open(rows, n - 1)) {
            Some(tag) => done.push(unknown_issue(tag, path)),
            None => done,
        }
    }
}

fn stays_open(open: bool, t: &str) -> (r: bool)
    ensures
        r == block_behind(open, t@),
{
    proof {
        reveal_strlit("/**");
    }
    if open {
        !contains(t, "*/")
    } else if starts_with(t, "/**") {
        let n: usize = t.unicode_len();
        assert(3 <= n);
        !starts_with(t, "/**/") && !contains(tail_of(t, 3), "*/")
    } else {
        false
    }
}

fn find_unknown_tag(line: &str, open: bool) -> (r: Option<String>)
    ensures
        r.deep_view() == unknown_tag(line@, open),
{
    let t = trim(line);
    if !(open || starts_with(t, "//") || starts_with(t, "/**")) {
        return None;
    }
    let list = words(trim(cut_lead(t, Some("/*"))));
    let ghost all = list.deep_view();
    let mut k: usize = 0;
    while k < list.len()
        invariant
            k <= list@.len(),
            all == list.deep_view(),
            unknown_tag(line@, open) == unknown_from(all, k as int),
        decreases list@.len() - k,
    {
        if starts_with(list[k].as_str(), "@") {
            let parts = split(list[k].as_str(), '(');
            assert(parts.deep_view()[0] == parts[0]@);
            if !knows_tag(parts[0].as_str()) {
                return Some(parts[0].clone());
            }
        }
        k = k + 1;
    }
    None
}

fn lint_tags(content: &str, path: &str) -> (r: Vec<HalDocLintIssue>)
    ensures
        r.deep_view() == tag_issues(line_seq(content@), path@, line_seq(content@).len() as int),
{
    let rows = lines(content);
    let mut out: Vec<HalDocLintIssue> = Vec::new();
    assert(out.deep_view() =~= Seq::empty());
    let mut open = false;
    let mut i: usize = 0;
    while i < rows.len()
        invariant
            i <= rows@.len(),
            open == block_open(rows.deep_view(), i as int),
            out.deep_view() == tag_issues(rows.deep_view(), path@, i as int),
        decreases rows@.len() - i,
    {
        match find_unknown_tag(rows[i].as_str(), open) {
            Some(tag) => {
                let tag = tag.as_str();
                let mut message = "unknown tag `".to_owned();
                message.append(tag);
                message.append("`");
                let mut fix = "Replace `".to_owned();
                fix.append(tag);
                fix.append("` with a whitelisted HAL tag or remove it.");
                add_item(
                    &mut out,
                    new_issue("warning", "unknown doc tag", path, tag, message, fix),
                );
            },
            None => {},
        }
        open = stays_open(open, trim(rows[i].as_str()));
        i = i + 1;
    }
    out
}

/// The issues of the first `n` contract classes themselves.
pub open spec fn class_doc_issues(
    docs: Seq<HalDocView>,
    classes: Seq<(Seq<char>, Seq<HalContractMethodView>)>,
    path: Seq<char>,
    n: int,
) -> Seq<HalDocLintIssueView>
    decreases n,
{
    if n <= 0 {
        Seq::empty()
    } else {
        let name = classes[n - 1].0;
        class_doc_issues(docs, classes, path, n - 1) + class_issues(
            tags_or_none(doc_on(docs, name)),
            path,
            name,
        )
    }
}

/// The issues of a contract header with the given classes.
pub open spec fn header_issues(
    content: Seq<char>,
    classes: Seq<(Seq<char>, Seq<HalContractMethodView>)>,
    path: Seq<char>,
) -> Seq<HalDocLintIssueView> {
    let docs = docs_of(content);
    class_doc_issues(docs, classes, path, classes.len() as int) + classes_issues(
        docs,
        classes,
        path,
        classes.len() as int,
    ) + tag_issues(line_seq(content), path, line_seq(content).len() as int)
}

fn lint_classes(
    docs: &Vec<HalDoc>,
    classes: &Vec<(String, Vec<HalContractMethod>)>,
    path: &str,
) -> (r: Vec<HalDocLintIssue>)
    ensures
        r.deep_view() == class_doc_issues(
            docs.deep_view(),
            classes.deep_view(),
            path@,
            classes@.len() as int,
        ),
{
    let ghost all = classes.deep_view();
    let mut out: Vec<HalDocLintIssue> = Vec::new();
    assert(out.deep_view() =~= Seq::empty());
    let mut i: usize = 0;
    while i < classes.len()
        invariant
            i <= classes@.len(),
            all == classes.deep_view(),
            out.deep_view() == class_doc_issues(docs.deep_view(), all, path@, i as int),
        decreases classes@.len() - i,
    {
        assert(all[i as int].0 == classes[i as int].0@);
        let tags = match find_doc(docs, classes[i].0.as_str()) {
            Some(k) => copy_hal_doc_tags(&docs[k].tags),
            None => Vec::new(),
        };
        assert(tags.deep_view() =~= tags_or_none(doc_on(docs.deep_view(), all[i as int].0)));
        add_items(&mut out, lint_class(&tags, path, classes[i].0.as_str()));
        i = i + 1;
    }
    out
}

/// The documentation issues of a contract header: classes without `@brief` or
/// `@id`, methods without `@brief`, `@param` or `@return`, unknown tags.
pub fn lint_header(
    content: &str,
    classes: &Vec<(String, Vec<HalContractMethod>)>,
    path: &str,
) -> (r: Vec<HalDocLintIssue>)
    ensures
        r.deep_view() == header_issues(content@, classes.deep_view(), path@),
{
    let docs = parse_hal_docs(content);
    let mut out = lint_classes(&docs, classes, path);
    add_items(&mut out, lint_methods(&docs, classes, path));
    add_items(&mut out, lint_tags(content, path));
    out
}

/// The lint results of the first `n` headers of `hal/api`.
pub open spec fn lint_upto(t: ProjectTreeView, names: Seq<Seq<char>>, n: int) -> Seq<
    HalDocLintFileView,
>
    decreases n,
{
    if n <= 0 {
        Seq::empty()
    } else {
        let done = lint_upto(t, names, n - 1);
        let rel = path_join("hal/api"@, names[n - 1]);
        if !has_extension(names[n - 1], "hpp"@) && !has_extension(names[n - 1], "h"@) {
            done
        } else {
            match content_at(t, rel) {
                None => done,
                Some(content) => {
                    let classes = contract_classes(content);
                    let path = full_path(t.root, rel);
                    if classes.len() == 0 {
                        done
                    } else {
                        done.push(
                            HalDocLintFileView { path, issues: header_issues(content, classes, path) },
                        )
                    }
                },
            }
        }
    }
}

/// The lint results of the contract headers of a project.
pub open spec fn lint_report(t: ProjectTreeView) -> Seq<HalDocLintFileView> {
    if dir_at(t, "hal/api"@) {
        lint_upto(t, names_in(t, "hal/api"@), names_in(t, "hal/api"@).len() as int)
    } else {
        Seq::empty()
    }
}

/// Lints the documentation of the contract headers below `hal/api`.
pub fn hal_doc_lint(tree: &ProjectTree) -> (r: HalDocLintReport)
    ensures
        r.files.deep_view() == lint_report(tree.deep_view()),
{
    let ghost t = tree.deep_view();
    let mut files: Vec<HalDocLintFile> = Vec::new();
    assert(files.deep_view() =~= Seq::empty());
    if !tree.is_dir("hal/api") {
        return HalDocLintReport { files };
    }
    let names = tree.list("hal/api");
    let mut i: usize = 0;
    while i < names.len()
        invariant
            i <= names@.len(),
            t == tree.deep_view(),
            files.deep_view() == lint_upto(t, names.deep_view(), i as int),
        decreases names@.len() - i,
    {
        let name = names[i].as_str();
        if with_extension(name, "hpp") || with_extension(name, "h") {
            let rel = join_path("hal/api", name);
            match tree.read(rel.as_str()) {
                None => {},
                Some(content) => {
                    let classes = extract_contract_methods_cpp(content.as_str());
                    if classes.len() > 0 {
                        let path = path_from_root(tree.root.as_str(), rel.as_str());
                        let issues = lint_header(content.as_str(), &classes, path.as_str());
                        add_item(&mut files, HalDocLintFile { path, issues });
                    }
                },
            }
        }
        i = i + 1;
    }
    HalDocLintReport { files }
}

/// The issues of the first file with the path from `k` on, none where there is
/// no such file.
pub open spec fn issues_from(files: Seq<HalDocLintFileView>, path: Seq<char>, k: int) -> Seq<
    HalDocLintIssueView,
>
    decreases files.len() - k,
{
    if k < 0 || k >= files.len() {
        Seq::empty()
    } else if files[k].path == path {
        files[k].issues
    } else {
        issues_from(files, path, k + 1)
    }
}

/// The documentation issues of one header.
pub fn hal_doc_lint_file(tree: &ProjectTree, path: &str) -> (r: Vec<HalDocLintIssue>)
    ensures
        r.deep_view() == issues_from(lint_report(tree.deep_view()), path@, 0),
{
    let report = hal_doc_lint(tree);
    let ghost files = report.files.deep_view();
    let mut k: usize = 0;
    while k < report.files.len()
        invariant
            k <= report.files@.len(),
            files == report.files.deep_view(),
            files == lint_report(tree.deep_view()),
            issues_from(files, path@, 0) == issues_from(files, path@, k as int),
        decreases report.files@.len() - k,
    {
        if same(report.files[k].path.as_str(), path) {
            return copy_hal_doc_lint_issues(&report.files[k].issues);
        }
        k = k + 1;
    }
    let none: Vec<HalDocLintIssue> = Vec::new();
    assert(none.deep_view() =~= Seq::empty());
    none
}

// ---------------------------------------------------------------------------
// Fix prompts
// ---------------------------------------------------------------------------

/// One file of a fix plan.
#[derive(Debug, PartialEq, Eq)]
pub struct HalFixPlanStep {
    pub path: String,
    pub issues: Vec<HalDocLintIssue>,
    pub prompt: String,
}

/// What a [`HalFixPlanStep`] holds.
#[verifier::ext_equal]
pub struct HalFixPlanStepView {
    pub path: Seq<char>,
    pub issues: Seq<HalDocLintIssueView>,
    pub prompt: Seq<char>,
}

impl DeepView for HalFixPlanStep {
    type V = HalFixPlanStepView;

    open spec fn deep_view(&self) -> HalFixPlanStepView {
        HalFixPlanStepView {
            path: self.path@,
            issues: self.issues.deep_view(),
            prompt: self.prompt@,
        }
    }
}

impl Clone for HalFixPlanStep {
    fn clone(&self) -> (r: Self)
        ensures
            r.deep_view() == self.deep_view(),
    {
        HalFixPlanStep {
            path: self.path.clone(),
            issues: copy_hal_doc_lint_issues(&self.issues),
            prompt: self.prompt.clone(),
        }
    }
}

/// The files to fix, in order.
#[derive(Debug, PartialEq, Eq)]
pub struct HalFixPlan {
    pub steps: Vec<HalFixPlanStep>,
}

/// What a [`HalFixPlan`] holds.
#[verifier::ext_equal]
pub struct HalFixPlanView {
    pub steps: Seq<HalFixPlanStepView>,
}

impl DeepView for HalFixPlan {
    type V = HalFixPlanView;

    open spec fn deep_view(&self) -> HalFixPlanView {
        HalFixPlanView {
            steps: self.steps.deep_view(),
        }
    }
}

/// The request for one issue.
pub open spec fn fix_prompt_text(issue: HalDocLintIssueView) -> Seq<char> {
    "Fix this HAL documentation issue.\nSymbol: "@
            + issue.symbol
            + "\nIssue: "@
            + issue.message
            + "\nPath: "@
            + issue.path
            + "\n\n"@
            + issue.fix_prompt
}

/// The request that asks for the corrected comment of one issue.
pub fn hal_doc_fix_prompt(issue: &HalDocLintIssue) -> (r: String)
    ensures
        r@ == fix_prompt_text(issue.deep_view()),
{
    let mut s = "Fix this HAL documentation issue.\nSymbol: ".to_owned();
    s.append(issue.symbol.as_str());
    s.append("\nIssue: ");
    s.append(issue.message.as_str());
    s.append("\nPath: ");
    s.append(issue.path.as_str());
    s.append("\n\n");
    s.append(issue.fix_prompt.as_str());
    s
}

/// The numbered lines of the first `n` issues behind `head`.
pub open spec fn issue_lines(head: Seq<char>, issues: Seq<HalDocLintIssueView>, n: int) -> Seq<char>
    decreases n,
{
    if n <= 0 {
        head
    } else {
        let issue = issues[n - 1];
        issue_lines(head, issues, n - 1) + (decimal(n)
            + ". Symbol: "@
            + issue.symbol
            + "   Issue: "@
            + issue.title
            + "   "@
            + issue.message
            + " \n"@)
    }
}

/// The request for all issues of a file.
pub open spec fn fix_prompt_for_file(path: Seq<char>, issues: Seq<HalDocLintIssueView>) -> Seq<char> {
    issue_lines(
        "Fix the HAL documentation issues in this C++ header.\nFile: "@ + path + "\n\n"@,
        issues,
        issues.len() as int,
    ) + "Return ONLY the corrected `/// @...` comment block(s) for the symbols listed, ready to paste into the file."@
}

/// One request for all issues of a file.
pub fn hal_doc_fix_prompt_all(path: &str, issues: &Vec<HalDocLintIssue>) -> (r: String)
    ensures
        r@ == fix_prompt_for_file(path@, issues.deep_view()),
{
    let mut out = "Fix the HAL documentation issues in this C++ header.\nFile: ".to_owned();
    out.append(path);
    out.append("\n\n");
    let ghost head = out@;
    let mut i: usize = 0;
    while i < issues.len()
        invariant
            i <= issues@.len(),
            out@ == issue_lines(head, issues.deep_view(), i as int),
        decreases issues@.len() - i,
    {
        let issue = &issues[i];
        let number = number_text(i + 1);
        let mut row = number.as_str().to_owned();
        row.append(". Symbol: ");
        row.append(issue.symbol.as_str());
        row.append("   Issue: ");
        row.append(issue.title.as_str());
        row.append("   ");
        row.append(issue.message.as_str());
        row.append(" \n");
        out.append(row.as_str());
        i = i + 1;
    }
    out.append("Return ONLY the corrected `/// @...` comment block(s) for the symbols listed, ready to paste into the file.");
    out
}

/// The numbered lines of the first `n` issues of a rewrite request.
pub open spec fn rewrite_lines(head: Seq<char>, issues: Seq<HalDocLintIssueView>, n: int) -> Seq<char>
    decreases n,
{
    if n <= 0 {
        head
    } else {
        let issue = issues[n - 1];
        rewrite_lines(head, issues, n - 1) + (decimal(n)
            + ". ["@
            + issue.symbol
            + "] "@
            + issue.title
            + " — "@
            + issue.message
            + "\n"@)
    }
}

/// The request to rewrite a whole file.
pub open spec fn rewrite_prompt(
    path: Seq<char>,
    content: Seq<char>,
    issues: Seq<HalDocLintIssueView>,
) -> Seq<char> {
    rewrite_lines("Fix the HAL documentation lints in this C++ header by rewriting the WHOLE file.\nFile: "@ + path + "\n\nIssues:\n"@, issues, issues.len() as int)
        + "\nCurrent content:\n```cpp\n"@ + content + "\n```\n\nReturn ONLY the complete corrected header inside a ```cpp``` block. Keep all code and signatures identical; add/fix only the `/// @...` doc comments."@
}

/// The request to rewrite a whole file with all its issues fixed.
pub fn hal_doc_fix_prompt_whole(path: &str, content: &str, issues: &Vec<HalDocLintIssue>) -> (r: String)
    ensures
        r@ == rewrite_prompt(path@, content@, issues.deep_view()),
{
    let mut out = "Fix the HAL documentation lints in this C++ header by rewriting the WHOLE file.\nFile: ".to_owned();
    out.append(path);
    out.append("\n\nIssues:\n");
    let ghost head = out@;
    let mut i: usize = 0;
    while i < issues.len()
        invariant
            i <= issues@.len(),
            out@ == rewrite_lines(head, issues.deep_view(), i as int),
        decreases issues@.len() - i,
    {
        let issue = &issues[i];
        let number = number_text(i + 1);
        let mut row = number.as_str().to_owned();
        row.append(". [");
        row.append(issue.symbol.as_str());
        row.append("] ");
        row.append(issue.title.as_str());
        row.append(" — ");
        row.append(issue.message.as_str());
        row.append("\n");
        out.append(row.as_str());
        i = i + 1;
    }
    out.append("\nCurrent content:\n```cpp\n");
    out.append(content);
    out.append("\n```\n\nReturn ONLY the complete corrected header inside a ```cpp``` block. Keep all code and signatures identical; add/fix only the `/// @...` doc comments.");
    out
}

/// The steps for the first `n` files, those without an issue left out.
pub open spec fn plan_steps(files: Seq<HalDocLintFileView>, n: int) -> Seq<HalFixPlanStepView>
    decreases n,
{
    if n <= 0 {
        Seq::empty()
    } else {
        let done = plan_steps(files, n - 1);
        let f = files[n - 1];
        if f.issues.len() == 0 {
            done
        } else {
            done.push(
                HalFixPlanStepView {
                    path: f.path,
                    issues: f.issues,
                    prompt: fix_prompt_for_file(f.path, f.issues),
                },
            )
        }
    }
}

/// The fix plan of a lint report: its files with issues, in order.
pub fn hal_fix_plan_from_lint(lint: &HalDocLintReport) -> (r: HalFixPlan)
    ensures
        r.steps.deep_view() == plan_steps(lint.files.deep_view(), lint.files@.len() as int),
{
    let ghost files = lint.files.deep_view();
    let mut steps: Vec<HalFixPlanStep> = Vec::new();
    assert(steps.deep_view() =~= Seq::empty());
    let mut i: usize = 0;
    while i < lint.files.len()
        invariant
            i <= lint.files@.len(),
            files == lint.files.deep_view(),
            steps.deep_view() == plan_steps(files, i as int),
        decreases lint.files@.len() - i,
    {
        let f = &lint.files[i];
        if f.issues.len() > 0 {
            let prompt = hal_doc_fix_prompt_all(f.path.as_str(), &f.issues);
            let issues = copy_hal_doc_lint_issues(&f.issues);
            add_item(&mut steps, HalFixPlanStep { path: f.path.clone(), issues, prompt });
        }
        i = i + 1;
    }
    HalFixPlan { steps }
}

/// A reply without its code fence.
pub open spec fn unfenced(text: Seq<char>) -> Seq<char> {
    let t = trimmed(text);
    if begins(t, "```"@) {
        let rest = after(t, 3);
        let body = if begins(rest, "cpp"@) {
            trimmed_start(after(rest, 3))
        } else {
            trimmed_start(rest)
        };
        match find_from(body, "```"@, 0) {
            Some(k) => trimmed(before(body, k)),
            None => trimmed(body),
        }
    } else {
        t
    }
}

/// The text inside a code fence, tagged `cpp` or not; a text without a fence is
/// only trimmed.
pub fn strip_code_fences(text: &str) -> (r: String)
    ensures
        r@ == unfenced(text@),
{
    proof {
        reveal_strlit("```");
        reveal_strlit("cpp");
    }
    let t = trim(text);
    if !starts_with(t, "```") {
        return t.to_owned();
    }
    let rest = tail_of(t, 3);
    let body = if starts_with(rest, "cpp") {
        trim_start(tail_of(rest, 3))
    } else {
        trim_start(rest)
    };
    match find(body, "```") {
        Some(k) => trim(head_of(body, k)).to_owned(),
        None => trim(body).to_owned(),
    }
}

} // verus!
