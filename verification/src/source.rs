//! Source files as nodes and edges, found by pattern.

use vstd::prelude::*;

use crate::coverage::is_name_char;
use crate::docs::{docs_of, parse_hal_docs};
use crate::hash::{sha256_digits, sha256_hex};
use crate::regexes::{
    end_at, find_matches, group_span, group_text, match_end, match_start, matches_of, span_at, start_at, text_at,
};
use crate::text::{
    add_item, add_items, after, begins, byte_len, bytes_upto, char_index, chars_of, column, contains,
    feeds, has_text, index_at, index_from_bounds, is_at, is_whitespace, line_seq, lines, lowercase, matches_at, pieces, same,
    split, starts_with, tail_of, text_of, to_lowercase, trim, trim_end, trim_of, trim_start, trimmed,
    trimmed_end, trimmed_of, trimmed_start, whitespace, width_of, ends, ends_with,
};
use crate::types::{
    AstEdgeData, AstEdgeDataView, AstNodeData, AstNodeDataView, AstParseResult, AstParseResultView,
    BuildMetadata, BuildMetadataView,
};

verus! {

// ---------------------------------------------------------------------------
// Places
// ---------------------------------------------------------------------------

/// Line (from one) and column (from zero) of a character.
pub open spec fn place(s: Seq<char>, n: int) -> (int, int) {
    (1 + feeds(s, n), column(s, n))
}

fn place_at(chars: &Vec<char>, n: usize) -> (r: (u32, u32))
    requires
        n <= chars@.len() < u32::MAX,
    ensures
        r.0 as int == place(chars@, n as int).0,
        r.1 as int == place(chars@, n as int).1,
        r.0 <= 1 + n,
        r.1 <= n,
{
    let mut line: u32 = 1;
    let mut col: u32 = 0;
    let mut i: usize = 0;
    while i < n
        invariant
            i <= n <= chars@.len() < u32::MAX,
            line == 1 + feeds(chars@, i as int),
            col == column(chars@, i as int),
            line <= 1 + i,
            col <= i,
        decreases n - i,
    {
        if chars[i] == '\n' {
            line = line + 1;
            col = 0;
        } else {
            col = col + 1;
        }
        i = i + 1;
    }
    (line, col)
}

/// Line (from one) and column (from zero, in characters) of a byte offset: of
/// the first character that does not begin before it.
pub fn offset_to_line_col(content: &str, offset: usize) -> (r: (u32, u32))
    requires
        content@.len() < u32::MAX,
    ensures
        r.0 as int == place(content@, index_at(content@, offset as int)).0,
        r.1 as int == place(content@, index_at(content@, offset as int)).1,
{
    let chars = chars_of(content);
    let n: usize = char_index(&chars, offset);
    place_at(&chars, n)
}

/// The number of bytes of a text in UTF-8.
fn byte_count(s: &str) -> (r: u32)
    requires
        s@.len() < 0x1fff_ffff,
    ensures
        r == byte_len(s@),
        r <= 4 * s@.len(),
{
    let chars = chars_of(s);
    let mut total: u32 = 0;
    let mut i: usize = 0;
    while i < chars.len()
        invariant
            i <= chars@.len() < 0x1fff_ffff,
            chars@ == s@,
            total == bytes_upto(chars@, i as int),
            total <= 4 * i,
        decreases chars@.len() - i,
    {
        let w: usize = width_of(chars[i]);
        total = total + (w as u32);
        i = i + 1;
    }
    total
}

/// The text, or none at all.
pub open spec fn or_none(s: Option<Seq<char>>) -> Seq<char> {
    match s {
        Some(t) => t,
        None => Seq::empty(),
    }
}

fn text_or_none(s: Option<String>) -> (r: String)
    ensures
        r@ == or_none(s.deep_view()),
{
    match s {
        Some(t) => t,
        None => {
            let r = String::new();
            assert(r@ =~= Seq::empty());
            r
        },
    }
}

// ---------------------------------------------------------------------------
// Imports and declarations
// ---------------------------------------------------------------------------

/// The character at which a match begins.
pub open spec fn starts(s: Seq<char>, m: Seq<Option<(usize, usize)>>) -> int {
    index_at(s, match_start(m))
}

/// The node of an import.
pub open spec fn import_node(s: Seq<char>, m: Seq<Option<(usize, usize)>>) -> AstNodeDataView {
    let text = or_none(group_text(s, m, 0));
    let (line, col) = place(s, starts(s, m));
    AstNodeDataView {
        node_type: "import"@,
        name: group_text(s, m, 1),
        text,
        start_line: line as u32,
        start_col: col as u32,
        end_line: line as u32,
        end_col: (col + byte_len(text)) as u32,
        depth: 0,
        is_public: false,
        is_async: false,
        signature: None,
        return_type: None,
        children: Seq::empty(),
    }
}

/// The nodes of the first `n` imports.
pub open spec fn import_nodes_upto(
    s: Seq<char>,
    ms: Seq<Seq<Option<(usize, usize)>>>,
    n: int,
) -> Seq<AstNodeDataView>
    decreases n,
{
    if n <= 0 {
        Seq::empty()
    } else {
        import_nodes_upto(s, ms, n - 1).push(import_node(s, ms[n - 1]))
    }
}

/// The matches of the two forms of an import.
pub open spec fn import_matches(s: Seq<char>) -> (
    Seq<Seq<Option<(usize, usize)>>>,
    Seq<Seq<Option<(usize, usize)>>>,
) {
    (
        matches_of("(?m)^\\s*(?:import|from)\\s+([A-Za-z0-9_\\.]+)"@, s),
        matches_of("(?m)^\\s*(?:use|using|include|require)\\s+([A-Za-z0-9_\\.:\\/]+)"@, s),
    )
}

/// The edges of the imports from index `base` on, each to itself.
pub open spec fn import_edges(base: int, count: nat, label: Seq<char>) -> Seq<AstEdgeDataView> {
    Seq::new(
        count,
        |i: int|
            AstEdgeDataView {
                from_index: (base + i) as usize,
                to_index: (base + i) as usize,
                edge_type: "imports"@,
                order: Some((base + i) as u32),
                field: Some(label),
            },
    )
}

/// The node of an import, from the groups of its match.
pub fn find_import(chars: &Vec<char>, m: &Vec<Option<(usize, usize)>>) -> (r: AstNodeData)
    requires
        chars@.len() < 0x1fff_ffff,
    ensures
        r.deep_view() == import_node(chars@, m.deep_view()),
{
    let text = text_or_none(text_at(chars, m, 0));
    let n: usize = char_index(chars, start_at(m));
    let (line, col) = place_at(chars, n);
    assert(text@.len() <= chars@.len()) by {
        group_fits(chars@, m.deep_view(), 0);
    }
    let len: u32 = byte_count(text.as_str());
    let r = AstNodeData {
        node_type: "import".to_owned(),
        name: text_at(chars, m, 1),
        text,
        start_line: line,
        start_col: col,
        end_line: line,
        end_col: col + len,
        depth: 0,
        is_public: false,
        is_async: false,
        signature: None,
        return_type: None,
        children: Vec::new(),
    };
    assert(r.deep_view().children =~= Seq::empty());
    r
}

proof fn group_fits(s: Seq<char>, m: Seq<Option<(usize, usize)>>, k: int)
    ensures
        or_none(group_text(s, m, k)).len() <= s.len(),
{
    if let Some(g) = group_span(m, k) {
        index_from_bounds(s, g.0 as int, 0);
        index_from_bounds(s, g.1 as int, 0);
    }
}

/// Adds the imports that were matched, each with an edge to itself.
pub fn add_imports(
    chars: &Vec<char>,
    ms: &Vec<Vec<Option<(usize, usize)>>>,
    label: &str,
    nodes: &mut Vec<AstNodeData>,
    edges: &mut Vec<AstEdgeData>,
)
    requires
        chars@.len() < 0x1fff_ffff,
    ensures
        final(nodes).deep_view() == old(nodes).deep_view() + import_nodes_upto(
            chars@,
            ms.deep_view(),
            ms.deep_view().len() as int,
        ),
        final(edges).deep_view() == old(edges).deep_view() + import_edges(
            old(nodes).deep_view().len() as int,
            ms.deep_view().len(),
            label@,
        ),
{
    let ghost first = nodes.deep_view();
    let ghost before = edges.deep_view();
    let ghost all = ms.deep_view();
    let mut i: usize = 0;
    assert(nodes.deep_view() =~= first + import_nodes_upto(chars@, all, 0));
    assert(edges.deep_view() =~= before + import_edges(first.len() as int, 0, label@));
    while i < ms.len()
        invariant
            i <= ms@.len(),
            chars@.len() < 0x1fff_ffff,
            all == ms.deep_view(),
            nodes.deep_view() == first + import_nodes_upto(chars@, all, i as int),
            edges.deep_view() == before + import_edges(first.len() as int, i as nat, label@),
            nodes@.len() == first.len() + i,
        decreases ms@.len() - i,
    {
        let idx: usize = nodes.len();
        add_item(nodes, find_import(chars, &ms[i]));
        assert(nodes.deep_view() =~= first + import_nodes_upto(chars@, all, i + 1));
        let edge = AstEdgeData {
            from_index: idx,
            to_index: idx,
            edge_type: "imports".to_owned(),
            order: Some(idx as u32),
            field: Some(label.to_owned()),
        };
        add_item(edges, edge);
        assert(edges.deep_view() =~= before + import_edges(
            first.len() as int,
            (i + 1) as nat,
            label@,
        ));
        i = i + 1;
    }
}

/// Some node stands on the line.
pub open spec fn on_line(nodes: Seq<AstNodeDataView>, line: int) -> bool {
    exists|i: int| 0 <= i < nodes.len() && (#[trigger] nodes[i]).start_line == line
}

/// The node of a declaration.
pub open spec fn declaration_node(s: Seq<char>, label: Seq<char>, m: Seq<Option<(usize, usize)>>) -> AstNodeDataView {
    let text = or_none(group_text(s, m, 0));
    let (line, col) = place(s, starts(s, m));
    AstNodeDataView {
        node_type: label,
        name: group_text(s, m, 1),
        text,
        start_line: line as u32,
        start_col: col as u32,
        end_line: line as u32,
        end_col: (col + byte_len(text)) as u32,
        depth: 0,
        is_public: begins(text, "pub "@) || begins(text, "public "@) || begins(text, "export "@),
        is_async: has_text(text, "async "@),
        signature: Some(text),
        return_type: None,
        children: Seq::empty(),
    }
}

/// The nodes of the first `n` declarations, without those on an import's line.
pub open spec fn declarations_upto(
    s: Seq<char>,
    label: Seq<char>,
    imports: Seq<AstNodeDataView>,
    ms: Seq<Seq<Option<(usize, usize)>>>,
    n: int,
) -> Seq<AstNodeDataView>
    decreases n,
{
    if n <= 0 {
        Seq::empty()
    } else {
        let done = declarations_upto(s, label, imports, ms, n - 1);
        if on_line(imports, place(s, starts(s, ms[n - 1])).0) {
            done
        } else {
            done.push(declaration_node(s, label, ms[n - 1]))
        }
    }
}

/// The node of a declaration, from the groups of its match.
pub fn find_declaration(chars: &Vec<char>, label: &str, m: &Vec<Option<(usize, usize)>>) -> (r: AstNodeData)
    requires
        chars@.len() < 0x1fff_ffff,
    ensures
        r.deep_view() == declaration_node(chars@, label@, m.deep_view()),
{
    let text = text_or_none(text_at(chars, m, 0));
    let n: usize = char_index(chars, start_at(m));
    let (line, col) = place_at(chars, n);
    assert(text@.len() <= chars@.len()) by {
        group_fits(chars@, m.deep_view(), 0);
    }
    let len: u32 = byte_count(text.as_str());
    let t = text.as_str();
    let is_public = starts_with(t, "pub ") || starts_with(t, "public ") || starts_with(t, "export ");
    let is_async = contains(t, "async ");
    let r = AstNodeData {
        node_type: label.to_owned(),
        name: text_at(chars, m, 1),
        signature: Some(text.clone()),
        text,
        start_line: line,
        start_col: col,
        end_line: line,
        end_col: col + len,
        depth: 0,
        is_public,
        is_async,
        return_type: None,
        children: Vec::new(),
    };
    assert(r.deep_view().children =~= Seq::empty());
    r
}

fn stands_on_line(nodes: &Vec<AstNodeData>, count: usize, line: u32) -> (r: bool)
    requires
        count <= nodes.len(),
    ensures
        r == on_line(nodes.deep_view().take(count as int), line as int),
{
    let ghost all = nodes.deep_view().take(count as int);
    let mut i: usize = 0;
    while i < count
        invariant
            i <= count <= nodes@.len(),
            all == nodes.deep_view().take(count as int),
            forall|j: int| 0 <= j < i ==> (#[trigger] all[j]).start_line != line,
        decreases count - i,
    {
        assert(all[i as int] == nodes[i as int].deep_view());
        if nodes[i].start_line == line {
            return true;
        }
        i = i + 1;
    }
    false
}

/// Adds the declarations that were matched, without those on an import's line.
pub fn add_declarations(
    chars: &Vec<char>,
    label: &str,
    ms: &Vec<Vec<Option<(usize, usize)>>>,
    imports: usize,
    nodes: &mut Vec<AstNodeData>,
)
    requires
        chars@.len() < 0x1fff_ffff,
        imports <= old(nodes).len(),
    ensures
        final(nodes).deep_view() == old(nodes).deep_view() + declarations_upto(
            chars@,
            label@,
            old(nodes).deep_view().take(imports as int),
            ms.deep_view(),
            ms.deep_view().len() as int,
        ),
{
    let ghost start = nodes.deep_view();
    let ghost head = start.take(imports as int);
    let ghost all = ms.deep_view();
    let mut i: usize = 0;
    assert(nodes.deep_view() =~= start + declarations_upto(chars@, label@, head, all, 0));
    while i < ms.len()
        invariant
            i <= ms@.len(),
            chars@.len() < 0x1fff_ffff,
            all == ms.deep_view(),
            imports <= start.len(),
            head == start.take(imports as int),
            nodes.deep_view() == start + declarations_upto(chars@, label@, head, all, i as int),
        decreases ms@.len() - i,
    {
        let n: usize = char_index(chars, start_at(&ms[i]));
        let (line, col) = place_at(chars, n);
        assert(nodes.deep_view().len() == nodes@.len());
        assert(nodes.deep_view().take(imports as int) =~= head);
        if !stands_on_line(nodes, imports, line) {
            add_item(nodes, find_declaration(chars, label, &ms[i]));
        }
        assert(nodes.deep_view() =~= start + declarations_upto(chars@, label@, head, all, i + 1));
        i = i + 1;
    }
}

/// The imports of a source text.
pub open spec fn imports_of(s: Seq<char>) -> Seq<AstNodeDataView> {
    let (a, b) = import_matches(s);
    import_nodes_upto(s, a, a.len() as int) + import_nodes_upto(s, b, b.len() as int)
}

/// The nodes of a source text: imports, then functions, then types.
pub open spec fn nodes_of(s: Seq<char>) -> Seq<AstNodeDataView> {
    let fns = matches_of("(?m)^\\s*(?:pub\\s+|public\\s+|export\\s+)?(?:async\\s+|fn\\s+|func\\s+|def\\s+|function\\s+)([A-Za-z0-9_]+)\\s*(?:<[^>]+>)?\\s*\\("@, s);
    let types = matches_of("(?m)^\\s*(?:pub\\s+|public\\s+|export\\s+)?(?:class\\s+|struct\\s+|trait\\s+|type\\s+|interface\\s+|enum\\s+|protocol\\s+|extension\\s+)([A-Za-z0-9_]+)"@, s);
    imports_of(s) + declarations_upto(s, "function"@, imports_of(s), fns, fns.len() as int)
        + declarations_upto(s, "class"@, imports_of(s), types, types.len() as int)
}

/// The edges of a source text: each import to itself.
pub open spec fn edges_of(s: Seq<char>) -> Seq<AstEdgeDataView> {
    let (a, b) = import_matches(s);
    import_edges(0, a.len(), "import"@) + import_edges(a.len() as int, b.len(), "use"@)
}

/// A source file found by pattern.
pub open spec fn basic_parse(
    file_path: Seq<char>,
    language: Seq<char>,
    content: Seq<char>,
    content_hash: Seq<char>,
) -> AstParseResultView {
    AstParseResultView {
        file_path,
        language,
        content_hash,
        has_errors: nodes_of(content).len() == 0,
        nodes: nodes_of(content),
        edges: edges_of(content),
        docs: Seq::empty(),
    }
}

/// Finds the imports, functions and types of a source text by pattern, without
/// a grammar of its language.
pub fn parse_source_file_basic(
    file_path: &str,
    language: &str,
    content: &str,
    content_hash: &str,
) -> (r: AstParseResult)
    requires
        content@.len() < 0x1fff_ffff,
    ensures
        r.deep_view() == basic_parse(file_path@, language@, content@, content_hash@),
{
    let chars = chars_of(content);
    let mut nodes: Vec<AstNodeData> = Vec::new();
    let mut edges: Vec<AstEdgeData> = Vec::new();
    assert(nodes.deep_view() =~= Seq::empty());
    assert(edges.deep_view() =~= Seq::empty());
    let a = find_matches("(?m)^\\s*(?:import|from)\\s+([A-Za-z0-9_\\.]+)", content);
    add_imports(&chars, &a, "import", &mut nodes, &mut edges);
    let ghost (x, y) = import_matches(content@);
    assert(nodes.deep_view() =~= import_nodes_upto(content@, x, x.len() as int));
    assert(edges.deep_view() =~= import_edges(0, x.len(), "import"@));
    proof {
        import_count(content@, x, x.len() as int);
    }
    let b = find_matches("(?m)^\\s*(?:use|using|include|require)\\s+([A-Za-z0-9_\\.:\\/]+)", content);
    add_imports(&chars, &b, "use", &mut nodes, &mut edges);
    let imports: usize = nodes.len();
    assert(nodes.deep_view().take(imports as int) =~= imports_of(content@));
    let fns = find_matches(
        "(?m)^\\s*(?:pub\\s+|public\\s+|export\\s+)?(?:async\\s+|fn\\s+|func\\s+|def\\s+|function\\s+)([A-Za-z0-9_]+)\\s*(?:<[^>]+>)?\\s*\\(",
        content,
    );
    add_declarations(&chars, "function", &fns, imports, &mut nodes);
    assert(nodes.deep_view().take(imports as int) =~= imports_of(content@));
    assert(nodes.deep_view().len() == nodes@.len());
    let types = find_matches(
        "(?m)^\\s*(?:pub\\s+|public\\s+|export\\s+)?(?:class\\s+|struct\\s+|trait\\s+|type\\s+|interface\\s+|enum\\s+|protocol\\s+|extension\\s+)([A-Za-z0-9_]+)",
        content,
    );
    add_declarations(&chars, "class", &types, imports, &mut nodes);
    let r = AstParseResult {
        file_path: file_path.to_owned(),
        language: language.to_owned(),
        content_hash: content_hash.to_owned(),
        has_errors: nodes.len() == 0,
        nodes,
        edges,
        docs: Vec::new(),
    };
    assert(r.docs.deep_view() =~= Seq::empty());
    r
}

proof fn import_count(s: Seq<char>, ms: Seq<Seq<Option<(usize, usize)>>>, n: int)
    requires
        0 <= n <= ms.len(),
    ensures
        import_nodes_upto(s, ms, n).len() == n,
    decreases n,
{
    if n > 0 {
        import_count(s, ms, n - 1);
    }
}

/// Parses a source file by pattern; the content is what reading it gave.
pub fn parse_source_file_std(
    file_path: &str,
    language: &str,
    content: &Result<String, String>,
) -> (r: Result<AstParseResult, String>)
    requires
        content matches Ok(c) ==> c@.len() < 0x1fff_ffff,
    ensures
        (match content {
            Ok(c) => r matches Ok(p) && p.deep_view() == basic_parse(
                file_path@,
                language@,
                c@,
                sha256_digits(c@),
            ),
            Err(e) => r matches Err(m) && m@ == "Failed to read "@ + file_path@ + ": "@ + e@,
        }),
{
    match content {
        Ok(c) => {
            let hash = sha256_hex(c.as_str());
            Ok(parse_source_file_basic(file_path, language, c.as_str(), hash.as_str()))
        },
        Err(e) => {
            let mut s = "Failed to read ".to_owned();
            s.append(file_path);
            s.append(": ");
            s.append(e.as_str());
            Err(s)
        },
    }
}

// ---------------------------------------------------------------------------
// C++ member functions
// ---------------------------------------------------------------------------

/// Where a reader of C++ text is: how many braces are open, and whether it is
/// inside a string literal, or behind a backslash in one.
pub struct Scan {
    pub depth: int,
    pub quoted: bool,
    pub escaped: bool,
}

/// The reader one character on. Braces in a string literal do not count; a literal
/// ends at its closing mark, and with its line at the latest.
pub open spec fn scan_step(at: Scan, c: char) -> Scan {
    if at.quoted {
        Scan {
            quoted: !(c == '\n' || (c == '"' && !at.escaped)),
            escaped: c == '\\' && !at.escaped,
            ..at
        }
    } else if c == '{' {
        Scan { depth: at.depth + 1, ..at }
    } else if c == '}' {
        Scan { depth: at.depth - 1, ..at }
    } else {
        Scan { quoted: c == '"', escaped: false, ..at }
    }
}

/// The reader before it starts.
pub open spec fn scan_start() -> Scan {
    Scan { depth: 0, quoted: false, escaped: false }
}

/// The reader behind the first `n` characters.
pub open spec fn scan_upto(s: Seq<char>, n: int) -> Scan
    decreases n,
{
    if n <= 0 {
        scan_start()
    } else {
        scan_step(scan_upto(s, n - 1), s[n - 1])
    }
}

/// The index behind the brace that closes what is open, from `i` on.
pub open spec fn close_from(s: Seq<char>, at: Scan, i: int) -> Option<int>
    decreases s.len() - i,
{
    if i < 0 || i >= s.len() {
        None
    } else if !at.quoted && s[i] == '}' && at.depth == 1 {
        Some(i + 1)
    } else {
        close_from(s, scan_step(at, s[i]), i + 1)
    }
}

/// The index behind the brace that matches the one at `open`.
pub open spec fn closing_brace(s: Seq<char>, open: int) -> Option<int> {
    if 0 <= open < s.len() && s[open] == '{' {
        close_from(s, scan_start(), open)
    } else {
        None
    }
}

/// The index behind the brace that matches the one at `open`; `None` where none
/// stands there or none matches it.
pub fn match_closing_brace(chars: &Vec<char>, open: usize) -> (r: Option<usize>)
    ensures
        (match r {
            Some(k) => closing_brace(chars@, open as int) == Some(k as int) && open < k
                && k <= chars@.len(),
            None => closing_brace(chars@, open as int) is None,
        }),
{
    if open >= chars.len() || chars[open] != '{' {
        return None;
    }
    let mut depth: usize = 0;
    let mut quoted = false;
    let mut escaped = false;
    let mut i: usize = open;
    while i < chars.len()
        invariant
            open <= i <= chars@.len(),
            depth <= i - open,
            i > open ==> depth >= 1,
            i == open ==> chars@[open as int] == '{' && depth == 0 && !quoted,
            closing_brace(chars@, open as int) == close_from(
                chars@,
                (Scan { depth: depth as int, quoted, escaped }),
                i as int,
            ),
        decreases chars@.len() - i,
    {
        let c: char = chars[i];
        if quoted {
            quoted = !(c == '\n' || (c == '"' && !escaped));
            escaped = c == '\\' && !escaped;
        } else if c == '{' {
            depth = depth + 1;
        } else if c == '}' {
            if depth == 1 {
                return Some(i + 1);
            }
            depth = depth - 1;
        } else {
            quoted = c == '"';
            escaped = false;
        }
        i = i + 1;
    }
    None
}

/// Nothing but white space stands before `i` on its line.
pub open spec fn starts_line(s: Seq<char>, i: int) -> bool
    decreases i,
{
    i <= 0 || s[i - 1] == '\n' || (whitespace(s[i - 1]) && starts_line(s, i - 1))
}

/// How many characters the access specifier at `i` has; zero where there is none.
pub open spec fn specifier_width(s: Seq<char>, i: int) -> int {
    if is_at(s, "public:"@, i) {
        7
    } else if is_at(s, "private:"@, i) {
        8
    } else if is_at(s, "protected:"@, i) {
        10
    } else {
        0
    }
}

/// Whether members behind the first `n` characters of a class body are public: the
/// last access specifier of the class itself decides.
pub open spec fn public_upto(s: Seq<char>, initial: bool, n: int) -> bool
    decreases n,
{
    if n <= 0 {
        initial
    } else if specifier_width(s, n - 1) > 0 && starts_line(s, n - 1) && scan_upto(s, n - 1).depth == 0 {
        is_at(s, "public:"@, n - 1)
    } else {
        public_upto(s, initial, n - 1)
    }
}

/// Where the declaration begins that stands at `i`: behind white space and access
/// specifiers.
pub open spec fn declaration_at(s: Seq<char>, i: int) -> int
    decreases s.len() - i,
{
    if i < 0 || i >= s.len() {
        i
    } else if whitespace(s[i]) {
        declaration_at(s, i + 1)
    } else {
        let w = specifier_width(s, i);
        if 0 < w && i + w <= s.len() {
            declaration_at(s, i + w)
        } else {
            i
        }
    }
}

/// How many characters the word has that may stand before a return type at `i`,
/// with the white space behind it; zero where there is none.
pub open spec fn leading_width(s: Seq<char>, i: int) -> int {
    let w: int = if is_at(s, "virtual"@, i) {
        7
    } else if is_at(s, "static"@, i) {
        6
    } else if is_at(s, "explicit"@, i) {
        8
    } else {
        0
    };
    if 0 < w && i + w < s.len() && whitespace(s[i + w]) {
        w + 1
    } else {
        0
    }
}

/// Where the return type begins of the declaration at `i`.
pub open spec fn type_at(s: Seq<char>, i: int) -> int
    decreases s.len() - i,
{
    if i < 0 || i >= s.len() {
        i
    } else if whitespace(s[i]) {
        type_at(s, i + 1)
    } else {
        let w = leading_width(s, i);
        if 0 < w && i + w <= s.len() {
            type_at(s, i + w)
        } else {
            i
        }
    }
}

/// A character of a member's name, which may be qualified or a destructor's.
pub open spec fn is_member_char(c: char) -> bool {
    is_name_char(c) || c == ':' || c == '~'
}

/// Where the name begins that ends at `n`, at `from` at the earliest.
pub open spec fn name_at(s: Seq<char>, from: int, n: int) -> int
    decreases n - from,
{
    if n <= from || n <= 0 || n > s.len() || !is_member_char(s[n - 1]) {
        n
    } else {
        name_at(s, from, n - 1)
    }
}

fn stands_at(s: &Vec<char>, text: &str, i: usize) -> (r: bool)
    ensures
        r == is_at(s@, text@, i as int),
{
    matches_at(s, &chars_of(text), i)
}

fn member_access(s: &Vec<char>, initial: bool, n: usize) -> (r: (bool, bool))
    requires
        n <= s@.len() < 0x1fff_ffff,
    ensures
        r.0 == public_upto(s@, initial, n as int),
        r.1 == (scan_upto(s@, n as int).depth == 0 && !scan_upto(s@, n as int).quoted),
{
    let mut public = initial;
    let mut depth: i64 = 0;
    let mut quoted = false;
    let mut escaped = false;
    let mut fresh = true;
    let mut i: usize = 0;
    while i < n
        invariant
            i <= n <= s@.len(),
            s@.len() < 0x1fff_ffff,
            -(i as int) <= depth <= i,
            public == public_upto(s@, initial, i as int),
            (Scan { depth: depth as int, quoted, escaped }) == scan_upto(s@, i as int),
            fresh == starts_line(s@, i as int),
        decreases n - i,
    {
        if fresh && depth == 0 {
            if stands_at(s, "public:", i) {
                public = true;
            } else if stands_at(s, "private:", i) || stands_at(s, "protected:", i) {
                public = false;
            }
        }
        let c: char = s[i];
        if quoted {
            quoted = !(c == '\n' || (c == '"' && !escaped));
            escaped = c == '\\' && !escaped;
        } else if c == '{' {
            depth = depth + 1;
        } else if c == '}' {
            depth = depth - 1;
        } else {
            quoted = c == '"';
            escaped = false;
        }
        fresh = c == '\n' || (fresh && is_whitespace(c));
        i = i + 1;
    }
    (public, depth == 0 && !quoted)
}

/// The character ends a word of a return type.
pub open spec fn ends_word(c: char) -> bool {
    whitespace(c) || c == ':' || c == '<' || c == ','
}

/// Where the last word of `s[..n]` begins.
pub open spec fn word_start(s: Seq<char>, n: int) -> int
    decreases n,
{
    if n <= 0 {
        0
    } else if ends_word(s[n - 1]) {
        n
    } else {
        word_start(s, n - 1)
    }
}

/// The last word of a return type.
pub open spec fn last_word(s: Seq<char>) -> Seq<char> {
    after(trimmed_end(s), word_start(trimmed_end(s), trimmed_end(s).len() as int))
}

fn find_last_word(s: &str) -> (r: String)
    ensures
        r@ == last_word(s@),
{
    let t = trim_end(s);
    let chars = chars_of(t);
    let mut n: usize = chars.len();
    while n > 0 && !(is_whitespace(chars[n - 1]) || chars[n - 1] == ':' || chars[n - 1] == '<'
        || chars[n - 1] == ',')
        invariant
            n <= chars@.len(),
            chars@ == t@,
            word_start(t@, t@.len() as int) == word_start(t@, n as int),
        decreases n,
    {
        n = n - 1;
    }
    tail_of(t, n).to_owned()
}

/// The word is no function's name.
pub open spec fn is_statement(name: Seq<char>) -> bool {
    ||| name == "if"@
        ||| name == "for"@
        ||| name == "while"@
        ||| name == "switch"@
        ||| name == "return"@
        ||| name == "catch"@
        ||| name == "sizeof"@
}

/// The name of a member function, qualified where it is the last word of its return
/// type.
pub open spec fn method_name(raw: Seq<char>, ret: Seq<char>) -> Seq<char> {
    if last_word(ret).len() > 0 && raw == last_word(ret) {
        raw + "::"@ + raw
    } else {
        raw
    }
}

/// The node of one match in a class body, where it is a member function of that
/// class. `start` is the character of the whole text at which the body begins.
pub open spec fn method_node(
    content: Seq<char>,
    body: Seq<char>,
    start: int,
    initial: bool,
    m: Seq<Option<(usize, usize)>>,
) -> Option<AstNodeDataView> {
    match group_span(m, 3) {
        None => None,
        Some(g) => {
            let from = declaration_at(body, starts(body, m));
            let name_end = index_at(body, g.1 as int);
            let name_start = name_at(body, from, name_end);
            let end = index_at(body, match_end(m));
            if !(from <= name_start < name_end <= end) || scan_upto(body, from).depth != 0 || scan_upto(
                body,
                from,
            ).quoted || is_statement(body.subrange(name_start, name_end)) {
                None
            } else {
                let full = trimmed(body.subrange(from, end));
                let type_start = type_at(body, from);
                let ret = if type_start < name_start {
                    trimmed(body.subrange(type_start, name_start))
                } else {
                    Seq::empty()
                };
                let name = method_name(body.subrange(name_start, name_end), ret);
                let (line, col) = place(content, start + from);
                Some(
                    AstNodeDataView {
                        node_type: "method"@,
                        name: Some(name),
                        text: full,
                        start_line: line as u32,
                        start_col: col as u32,
                        end_line: line as u32,
                        end_col: (col + full.len()) as u32,
                        depth: 1,
                        is_public: public_upto(body, initial, from),
                        is_async: false,
                        signature: Some(full),
                        return_type: if has_text(name, "~"@) || ret.len() == 0 {
                            None
                        } else {
                            Some(ret)
                        },
                        children: Seq::empty(),
                    },
                )
            }
        },
    }
}

proof fn trimmed_fits(s: Seq<char>)
    ensures
        trimmed(s).len() <= s.len(),
{
    crate::text::tail_bounds(s, None, s.len() as int);
    let t = trimmed_end(s);
    crate::text::lead_bounds(s, None, 0);
    crate::text::lead_bounds(t, None, 0);
    let u = trimmed_start(s);
    crate::text::tail_bounds(u, None, u.len() as int);
}

fn skip_specifiers(s: &Vec<char>, start: usize) -> (r: usize)
    requires
        start <= s@.len(),
    ensures
        r == declaration_at(s@, start as int),
        r <= s@.len(),
{
    proof {
        reveal_strlit("public:");
        reveal_strlit("private:");
        reveal_strlit("protected:");
    }
    let mut i: usize = start;
    while i < s.len()
        invariant
            i <= s@.len(),
            "public:"@.len() == 7,
            "private:"@.len() == 8,
            "protected:"@.len() == 10,
            declaration_at(s@, start as int) == declaration_at(s@, i as int),
        decreases s@.len() - i,
    {
        if is_whitespace(s[i]) {
            i = i + 1;
        } else if stands_at(s, "public:", i) {
            i = i + 7;
        } else if stands_at(s, "private:", i) {
            i = i + 8;
        } else if stands_at(s, "protected:", i) {
            i = i + 10;
        } else {
            return i;
        }
    }
    i
}

fn find_type_start(s: &Vec<char>, start: usize) -> (r: usize)
    requires
        start <= s@.len(),
    ensures
        r == type_at(s@, start as int),
        r <= s@.len(),
{
    proof {
        reveal_strlit("virtual");
        reveal_strlit("static");
        reveal_strlit("explicit");
    }
    let mut i: usize = start;
    while i < s.len()
        invariant
            i <= s@.len(),
            "virtual"@.len() == 7,
            "static"@.len() == 6,
            "explicit"@.len() == 8,
            type_at(s@, start as int) == type_at(s@, i as int),
        decreases s@.len() - i,
    {
        if is_whitespace(s[i]) {
            i = i + 1;
        } else {
            let w: usize = if stands_at(s, "virtual", i) {
                7
            } else if stands_at(s, "static", i) {
                6
            } else if stands_at(s, "explicit", i) {
                8
            } else {
                0
            };
            if w > 0 && w < s.len() - i && is_whitespace(s[i + w]) {
                i = i + w + 1;
            } else {
                return i;
            }
        }
    }
    i
}

fn find_name_start(s: &Vec<char>, from: usize, end: usize) -> (r: usize)
    requires
        end <= s@.len(),
    ensures
        r == name_at(s@, from as int, end as int),
        r <= end,
{
    let mut n: usize = end;
    while n > from
        invariant
            n <= end <= s@.len(),
            name_at(s@, from as int, end as int) == name_at(s@, from as int, n as int),
        decreases n,
    {
        let c: char = s[n - 1];
        let named = ('a' <= c && c <= 'z') || ('A' <= c && c <= 'Z') || ('0' <= c && c <= '9') || c == '_';
        if !(named || c == ':' || c == '~') {
            return n;
        }
        n = n - 1;
    }
    n
}

/// The node of a method, from the groups of its match in a class body.
pub fn find_method(
    content: &Vec<char>,
    body: &Vec<char>,
    start: usize,
    initial: bool,
    m: &Vec<Option<(usize, usize)>>,
) -> (r: Option<AstNodeData>)
    requires
        content@.len() < 0x1fff_ffff,
        start + body@.len() <= content@.len(),
    ensures
        r.deep_view() == method_node(content@, body@, start as int, initial, m.deep_view()),
{
    let g: (usize, usize) = match span_at(m, 3) {
        Some(g) => g,
        None => {
            return None;
        },
    };
    let from: usize = skip_specifiers(body, char_index(body, start_at(m)));
    let name_end: usize = char_index(body, g.1);
    let name_start: usize = find_name_start(body, from, name_end);
    let end: usize = char_index(body, end_at(m));
    let (is_public, member) = member_access(body, initial, from);
    if !(from <= name_start && name_start < name_end && name_end <= end) || !member {
        return None;
    }
    let raw = text_of(body, name_start, name_end);
    let raw = raw.as_str();
    let statement = same(raw, "if") || same(raw, "for") || same(raw, "while") || same(raw, "switch") || same(raw, "return") || same(raw, "catch") || same(raw, "sizeof");
    if statement {
        return None;
    }
    let whole = text_of(body, from, end);
    let full = trim(whole.as_str()).to_owned();
    proof {
        trimmed_fits(whole@);
    }
    let type_start: usize = find_type_start(body, from);
    let ret = if type_start < name_start {
        trim(text_of(body, type_start, name_start).as_str()).to_owned()
    } else {
        let none = String::new();
        assert(none@ =~= Seq::empty());
        none
    };
    let word = find_last_word(ret.as_str());
    let name = if word.as_str().unicode_len() > 0 && same(raw, word.as_str()) {
        let mut s = raw.to_owned();
        s.append("::");
        s.append(raw);
        s
    } else {
        raw.to_owned()
    };
    let (line, col) = place_at(content, start + from);
    let return_type = if contains(name.as_str(), "~") || ret.as_str().unicode_len() == 0 {
        None
    } else {
        Some(ret)
    };
    let len: usize = full.as_str().unicode_len();
    let node = AstNodeData {
        node_type: "method".to_owned(),
        name: Some(name),
        text: full.clone(),
        start_line: line,
        start_col: col,
        end_line: line,
        end_col: col + (len as u32),
        depth: 1,
        is_public,
        is_async: false,
        signature: Some(full),
        return_type,
        children: Vec::new(),
    };
    assert(node.deep_view().children =~= Seq::empty());
    Some(node)
}

/// The member functions among the first `n` matches in a class body, each with
/// the name of its class.
pub open spec fn methods_upto(
    content: Seq<char>,
    class: Seq<char>,
    body: Seq<char>,
    start: int,
    initial: bool,
    ms: Seq<Seq<Option<(usize, usize)>>>,
    n: int,
) -> Seq<(Seq<char>, AstNodeDataView)>
    decreases n,
{
    if n <= 0 {
        Seq::empty()
    } else {
        let done = methods_upto(content, class, body, start, initial, ms, n - 1);
        match method_node(content, body, start, initial, ms[n - 1]) {
            Some(node) => done.push((class, node)),
            None => done,
        }
    }
}

/// The member functions of one class, from the match of its header; none where
/// its body is not closed.
pub open spec fn class_methods(content: Seq<char>, m: Seq<Option<(usize, usize)>>) -> Seq<
    (Seq<char>, AstNodeDataView),
> {
    let open = index_at(content, match_end(m)) - 1;
    match (group_text(content, m, 1), group_text(content, m, 0), closing_brace(content, open)) {
        (Some(class), Some(header), Some(close)) => {
            let body = content.subrange(open + 1, close);
            let ms = matches_of(
                "(?m)^\\s*(?P<head>virtual\\s+|static\\s+|explicit\\s+|virtual\\s+static\\s+)*\\s*(?P<ret>[\\w:<>,.*&\\[\\]\\s]+?)?\\s*(?P<name>[A-Za-z_~][A-Za-z0-9_:~]*)\\s*\\((?P<params>[^;{}]*?)\\)\\s*(?:const\\s+)?(?:override\\s+)?(?P<purity>=\\s*(?:0|default|delete))?\\s*[;{]"@,
                body,
            );
            methods_upto(
                content,
                class,
                body,
                open + 1,
                begins(trimmed_start(header), "struct"@),
                ms,
                ms.len() as int,
            )
        },
        _ => Seq::empty(),
    }
}

/// The methods of a class, from the groups of the match of its head, each with the
/// name of the class.
pub fn find_class_methods(content: &Vec<char>, m: &Vec<Option<(usize, usize)>>) -> (r: Vec<(String, AstNodeData)>)
    requires
        content@.len() < 0x1fff_ffff,
    ensures
        r.deep_view() == class_methods(content@, m.deep_view()),
{
    let mut out: Vec<(String, AstNodeData)> = Vec::new();
    assert(out.deep_view() =~= Seq::empty());
    let end: usize = char_index(content, end_at(m));
    if end == 0 {
        return out;
    }
    let open: usize = end - 1;
    let close: usize = match match_closing_brace(content, open) {
        Some(k) => k,
        None => {
            return out;
        },
    };
    let class = match text_at(content, m, 1) {
        Some(c) => c,
        None => {
            return out;
        },
    };
    let header = match text_at(content, m, 0) {
        Some(h) => h,
        None => {
            return out;
        },
    };
    let initial = starts_with(trim_start(header.as_str()), "struct");
    let text = text_of(content, open + 1, close);
    let body = chars_of(text.as_str());
    let ms = find_matches(
        "(?m)^\\s*(?P<head>virtual\\s+|static\\s+|explicit\\s+|virtual\\s+static\\s+)*\\s*(?P<ret>[\\w:<>,.*&\\[\\]\\s]+?)?\\s*(?P<name>[A-Za-z_~][A-Za-z0-9_:~]*)\\s*\\((?P<params>[^;{}]*?)\\)\\s*(?:const\\s+)?(?:override\\s+)?(?P<purity>=\\s*(?:0|default|delete))?\\s*[;{]",
        text.as_str(),
    );
    let ghost all = ms.deep_view();
    let mut i: usize = 0;
    while i < ms.len()
        invariant
            i <= ms@.len(),
            content@.len() < 0x1fff_ffff,
            open + 1 + body@.len() <= content@.len(),
            body@ == text@,
            all == ms.deep_view(),
            out.deep_view() == methods_upto(
                content@,
                class@,
                text@,
                open + 1,
                initial,
                all,
                i as int,
            ),
        decreases ms@.len() - i,
    {
        if let Some(node) = find_method(content, &body, open + 1, initial, &ms[i]) {
            add_item(&mut out, (class.clone(), node));
        }
        i = i + 1;
    }
    out
}

/// The member functions of the first `n` classes.
pub open spec fn all_methods_upto(
    content: Seq<char>,
    ms: Seq<Seq<Option<(usize, usize)>>>,
    n: int,
) -> Seq<(Seq<char>, AstNodeDataView)>
    decreases n,
{
    if n <= 0 {
        Seq::empty()
    } else {
        all_methods_upto(content, ms, n - 1) + class_methods(content, ms[n - 1])
    }
}

/// The member functions that the classes of a C++ text declare, each with the
/// name of its class.
pub open spec fn cpp_methods(content: Seq<char>) -> Seq<(Seq<char>, AstNodeDataView)> {
    let ms = matches_of("(?m)^\\s*(?:class|struct)\\s+([A-Za-z_][A-Za-z0-9_]*)\\b[^{;]*\\{"@, content);
    all_methods_upto(content, ms, ms.len() as int)
}

/// The member functions (methods, constructors, destructors) that the classes
/// of a C++ text declare, each with the name of its class.
pub fn extract_cpp_methods(content: &str) -> (r: Vec<(String, AstNodeData)>)
    requires
        content@.len() < 0x1fff_ffff,
    ensures
        r.deep_view() == cpp_methods(content@),
{
    let chars = chars_of(content);
    let ms = find_matches("(?m)^\\s*(?:class|struct)\\s+([A-Za-z_][A-Za-z0-9_]*)\\b[^{;]*\\{", content);
    let ghost all = ms.deep_view();
    let mut out: Vec<(String, AstNodeData)> = Vec::new();
    assert(out.deep_view() =~= Seq::empty());
    let mut i: usize = 0;
    while i < ms.len()
        invariant
            i <= ms@.len(),
            content@.len() < 0x1fff_ffff,
            chars@ == content@,
            all == ms.deep_view(),
            out.deep_view() == all_methods_upto(content@, all, i as int),
        decreases ms@.len() - i,
    {
        add_items(&mut out, find_class_methods(&chars, &ms[i]));
        i = i + 1;
    }
    out
}

/// The first type of that name from `k` on.
pub open spec fn type_from(nodes: Seq<AstNodeDataView>, name: Seq<char>, k: int) -> Option<int>
    decreases nodes.len() - k,
{
    if k < 0 || k >= nodes.len() {
        None
    } else if nodes[k].node_type == "class"@ && nodes[k].name == Some(name) {
        Some(k)
    } else {
        type_from(nodes, name, k + 1)
    }
}

fn find_type(nodes: &Vec<AstNodeData>, count: usize, name: &str) -> (r: Option<usize>)
    requires
        count <= nodes.len(),
    ensures
        (match r {
            Some(k) => type_from(nodes.deep_view().take(count as int), name@, 0) == Some(k as int),
            None => type_from(nodes.deep_view().take(count as int), name@, 0) is None,
        }),
{
    let ghost all = nodes.deep_view().take(count as int);
    let mut k: usize = 0;
    while k < count
        invariant
            k <= count <= nodes@.len(),
            all == nodes.deep_view().take(count as int),
            type_from(all, name@, 0) == type_from(all, name@, k as int),
        decreases count - k,
    {
        assert(all[k as int] == nodes[k as int].deep_view());
        if same(nodes[k].node_type.as_str(), "class") {
            if let Some(n) = &nodes[k].name {
                if same(n.as_str(), name) {
                    return Some(k);
                }
            }
        }
        k = k + 1;
    }
    None
}

/// The edges from types to the first `n` member functions.
pub open spec fn child_edges_upto(
    nodes: Seq<AstNodeDataView>,
    methods: Seq<(Seq<char>, AstNodeDataView)>,
    n: int,
) -> Seq<AstEdgeDataView>
    decreases n,
{
    if n <= 0 {
        Seq::empty()
    } else {
        let done = child_edges_upto(nodes, methods, n - 1);
        match type_from(nodes, methods[n - 1].0, 0) {
            Some(k) => done.push(
                AstEdgeDataView {
                    from_index: k as usize,
                    to_index: (nodes.len() + n - 1) as usize,
                    edge_type: "child"@,
                    order: Some((n - 1) as u32),
                    field: None,
                },
            ),
            None => done,
        }
    }
}

/// The nodes of the member functions.
pub open spec fn method_nodes(methods: Seq<(Seq<char>, AstNodeDataView)>) -> Seq<AstNodeDataView> {
    Seq::new(methods.len(), |i: int| methods[i].1)
}

/// A C++ file found by pattern: the basic parse, the member functions behind it
/// as children of their types, and the structured comments.
pub open spec fn cpp_parse(file_path: Seq<char>, content: Seq<char>) -> AstParseResultView {
    let base = basic_parse(file_path, "C/C++"@, content, sha256_digits(content));
    let methods = cpp_methods(content);
    let nodes = base.nodes + method_nodes(methods);
    AstParseResultView {
        has_errors: nodes.len() == 0,
        nodes,
        edges: base.edges + child_edges_upto(base.nodes, methods, methods.len() as int),
        docs: docs_of(content),
        ..base
    }
}

/// Parses a C++ file by pattern; the content is what reading it gave.
pub fn parse_cpp_source_file_std(file_path: &str, content: &Result<String, String>) -> (r: Result<
    AstParseResult,
    String,
>)
    requires
        content matches Ok(c) ==> c@.len() < 0x1fff_ffff,
    ensures
        (match content {
            Ok(c) => r matches Ok(p) && p.deep_view() == cpp_parse(file_path@, c@),
            Err(e) => r matches Err(m) && m@ == "Failed to read "@ + file_path@ + ": "@ + e@,
        }),
{
    let text = match content {
        Ok(c) => c.as_str(),
        Err(e) => {
            let mut s = "Failed to read ".to_owned();
            s.append(file_path);
            s.append(": ");
            s.append(e.as_str());
            return Err(s);
        },
    };
    let hash = sha256_hex(text);
    let mut base = parse_source_file_basic(file_path, "C/C++", text, hash.as_str());
    let ghost start = base.deep_view();
    let methods = extract_cpp_methods(text);
    let ghost all = methods.deep_view();
    let count: usize = base.nodes.len();
    let mut i: usize = 0;
    assert(base.nodes.deep_view().take(count as int) =~= start.nodes);
    assert(base.nodes.deep_view() =~= start.nodes + method_nodes(all).take(0));
    assert(base.edges.deep_view() =~= start.edges + child_edges_upto(start.nodes, all, 0));
    while i < methods.len()
        invariant
            i <= methods@.len(),
            all == methods.deep_view(),
            count == start.nodes.len(),
            base.nodes@.len() == count + i,
            base.nodes.deep_view() == start.nodes + method_nodes(all).take(i as int),
            base.edges.deep_view() == start.edges + child_edges_upto(start.nodes, all, i as int),
            base.file_path@ == start.file_path,
            base.language@ == start.language,
            base.content_hash@ == start.content_hash,
        decreases methods@.len() - i,
    {
        assert(all[i as int] == (methods[i as int].0@, methods[i as int].1.deep_view()));
        assert(base.nodes.deep_view().take(count as int) =~= start.nodes);
        let to: usize = base.nodes.len();
        if let Some(k) = find_type(&base.nodes, count, methods[i].0.as_str()) {
            let edge = AstEdgeData {
                from_index: k,
                to_index: to,
                edge_type: "child".to_owned(),
                order: Some(i as u32),
                field: None,
            };
            add_item(&mut base.edges, edge);
        }
        assert(base.edges.deep_view() =~= start.edges + child_edges_upto(start.nodes, all, i + 1));
        add_item(&mut base.nodes, methods[i].1.clone());
        assert(method_nodes(all).take(i + 1) =~= method_nodes(all).take(i as int).push(
            all[i as int].1,
        ));
        assert(base.nodes.deep_view() =~= start.nodes + method_nodes(all).take(i + 1));
        i = i + 1;
    }
    assert(method_nodes(all).take(all.len() as int) =~= method_nodes(all));
    base.has_errors = base.nodes.len() == 0;
    base.docs = parse_hal_docs(text);
    assert(base.deep_view() =~= cpp_parse(file_path@, text@));
    Ok(base)
}

// ---------------------------------------------------------------------------
// Key and value files
// ---------------------------------------------------------------------------

/// The line is the heading of a section.
pub open spec fn is_heading(line: Seq<char>) -> bool {
    begins(line, "["@) && ends(line, "]"@) && line.len() >= 2
}

/// The heading names the section, which may be asked for with its brackets or
/// without them.
pub open spec fn names_section(heading: Seq<char>, section: Seq<char>) -> bool {
    heading == section || heading.subrange(1, heading.len() - 1) == section
}

/// The lines among the first `n` count: they stand in the section, or no section
/// is asked for.
pub open spec fn in_section(rows: Seq<Seq<char>>, section: Seq<char>, n: int) -> bool
    decreases n,
{
    if n <= 0 {
        section.len() == 0
    } else {
        let line = trimmed(rows[n - 1]);
        if is_heading(line) {
            section.len() == 0 || names_section(line, section)
        } else {
            in_section(rows, section, n - 1)
        }
    }
}

/// The value that a line gives the key, where it does: what stands between the
/// first two equality signs, without blanks and quotes around it.
pub open spec fn value_on(line: Seq<char>, key: Seq<char>) -> Option<Seq<char>> {
    let parts = pieces(line, '=');
    if begins(lowercase(line), key + " = "@) && parts.len() > 1 {
        Some(trimmed_of(trimmed_of(trimmed(parts[1]), "\""@), "'"@))
    } else {
        None
    }
}

/// The value that the first `n` lines give the key: the first one in the
/// section.
pub open spec fn value_upto(
    rows: Seq<Seq<char>>,
    section: Seq<char>,
    key: Seq<char>,
    n: int,
) -> Option<Seq<char>>
    decreases n,
{
    if n <= 0 {
        None
    } else {
        match value_upto(rows, section, key, n - 1) {
            Some(v) => Some(v),
            None => {
                let line = trimmed(rows[n - 1]);
                if is_heading(line) || !in_section(rows, section, n) {
                    None
                } else {
                    value_on(line, key)
                }
            },
        }
    }
}

/// The value of a key in a text.
pub open spec fn value_in(content: Seq<char>, section: Seq<char>, key: Seq<char>) -> Option<Seq<char>> {
    value_upto(line_seq(content), section, key, line_seq(content).len() as int)
}

fn find_value_on(line: &str, lower: &str, key: &str) -> (r: Option<String>)
    requires
        lower@ == lowercase(line@),
    ensures
        r.deep_view() == value_on(line@, key@),
{
    let mut lead = key.to_owned();
    lead.append(" = ");
    if starts_with(lower, lead.as_str()) {
        let parts = split(line, '=');
        if parts.len() > 1 {
            let v = trim_of(trim_of(trim(parts[1].as_str()), "\""), "'");
            return Some(v.to_owned());
        }
    }
    None
}

/// What a key and value file says of a project.
pub open spec fn key_value_metadata(
    root: Seq<char>,
    config: Seq<char>,
    content: Seq<char>,
    section: Seq<char>,
) -> BuildMetadataView {
    BuildMetadataView {
        project_name: value_in(content, section, "name"@),
        description: value_in(content, section, "description"@),
        version: value_in(content, section, "version"@),
        project_type: Seq::empty(),
        build_system: Seq::empty(),
        is_workspace: false,
        workspace_members: Seq::empty(),
        scripts: Seq::empty(),
        dependencies: Seq::empty(),
        targets: Seq::empty(),
        config_files: seq![config],
        project_path: Some(root),
        platform_targets: Seq::empty(),
        structure: crate::types::ProjectStructure::Native,
        domains: Seq::empty(),
        hal_interfaces: Seq::empty(),
        issues: Seq::empty(),
        raw: None,
    }
}

/// Reads `name`, `version` and `description` from a file of `key = value` lines,
/// in one section of it, asked for by its name or by a heading like `[project]`,
/// or, where the section is empty, in all of it. The content is what reading the
/// file gave.
pub fn parse_key_value(
    root: &str,
    config: &str,
    content: &Result<String, String>,
    section: &str,
) -> (r: Result<BuildMetadata, String>)
    ensures
        (match content {
            Ok(c) => r matches Ok(m) && m.deep_view() == key_value_metadata(
                root@,
                config@,
                c@,
                section@,
            ),
            Err(e) => r matches Err(m) && m@ == "Failed to read "@ + config@ + ": "@ + e@,
        }),
{
    let text = match content {
        Ok(c) => c.as_str(),
        Err(e) => {
            let mut s = "Failed to read ".to_owned();
            s.append(config);
            s.append(": ");
            s.append(e.as_str());
            return Err(s);
        },
    };
    let rows = lines(text);
    let ghost all = rows.deep_view();
    let whole = section.unicode_len() == 0;
    let mut inside = whole;
    let mut name: Option<String> = None;
    let mut version: Option<String> = None;
    let mut description: Option<String> = None;
    let mut i: usize = 0;
    while i < rows.len()
        invariant
            i <= rows@.len(),
            all == rows.deep_view(),
            whole == (section@.len() == 0),
            inside == in_section(all, section@, i as int),
            name.deep_view() == value_upto(all, section@, "name"@, i as int),
            version.deep_view() == value_upto(all, section@, "version"@, i as int),
            description.deep_view() == value_upto(all, section@, "description"@, i as int),
        decreases rows@.len() - i,
    {
        let line = trim(rows[i].as_str());
        let size: usize = line.unicode_len();
        if size >= 2 && starts_with(line, "[") && ends_with(line, "]") {
            let inner = text_of(&chars_of(line), 1, size - 1);
            inside = whole || same(line, section) || same(inner.as_str(), section);
        } else if inside {
            let lower = to_lowercase(line);
            if name.is_none() {
                name = find_value_on(line, lower.as_str(), "name");
            }
            if version.is_none() {
                version = find_value_on(line, lower.as_str(), "version");
            }
            if description.is_none() {
                description = find_value_on(line, lower.as_str(), "description");
            }
        }
        i = i + 1;
    }
    let mut m = BuildMetadata::default();
    m.project_name = name;
    m.version = version;
    m.description = description;
    m.config_files = vec![config.to_owned()];
    m.project_path = Some(root.to_owned());
    assert(m.config_files.deep_view() =~= seq![config@]);
    assert(m.deep_view() =~= key_value_metadata(root@, config@, text@, section@));
    Ok(m)
}

} // verus!
