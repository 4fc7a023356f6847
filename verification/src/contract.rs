//! HAL contracts as text: summaries, what they parse into, how two of them
//! differ, and the sources, names and prompts generated from them.

use vstd::prelude::*;

use crate::cpp::{
    contract_classes, copy_hal_contract_methods, drop_defaults, extract_contract_methods_cpp, without_defaults,
    HalContractMethod, HalContractMethodView,
};
use crate::text::{
    add_item, add_items, after, before, chars_of, distinct, find, find_from, head_of, join, joined, line_seq,
    lines, pieces, same, sort, sorted, split, tail_of, trim, trim_end, trimmed, trimmed_end, without_repeats,
    word_seq, words,
};

verus! {

// ---------------------------------------------------------------------------
// Summaries
// ---------------------------------------------------------------------------

/// One method of a summary: `Ret name(params) = 0`.
pub open spec fn method_summary(m: HalContractMethodView) -> Seq<char> {
    let ret = trimmed(m.return_type);
    let params = trimmed(m.params);
    if ret.len() == 0 {
        m.name + "("@ + params + ") = 0"@
    } else {
        ret + " "@ + m.name + "("@ + params + ") = 0"@
    }
}

/// The summary of a class: its name and its methods.
pub open spec fn class_summary(c: (Seq<char>, Seq<HalContractMethodView>)) -> Seq<char> {
    c.0 + ": "@ + joined(Seq::new(c.1.len(), |i: int| method_summary(c.1[i])), "; "@)
}

/// The summary of a contract: one line for each class.
pub open spec fn contract_summary(classes: Seq<(Seq<char>, Seq<HalContractMethodView>)>) -> Seq<
    char,
> {
    joined(Seq::new(classes.len(), |i: int| class_summary(classes[i])), "\n"@)
}

fn summarize_method(m: &HalContractMethod) -> (r: String)
    ensures
        r@ == method_summary(m.deep_view()),
{
    let ret = trim(m.return_type.as_str());
    let params = trim(m.params.as_str());
    let mut s = if ret.unicode_len() == 0 {
        m.name.clone()
    } else {
        let mut s = ret.to_owned();
        s.append(" ");
        s.append(m.name.as_str());
        s
    };
    s.append("(");
    s.append(params);
    s.append(") = 0");
    s
}

fn summarize_class(name: &String, methods: &Vec<HalContractMethod>) -> (r: String)
    ensures
        r@ == class_summary((name@, methods.deep_view())),
{
    let ghost all = methods.deep_view();
    let mut parts: Vec<String> = Vec::new();
    let mut i: usize = 0;
    assert(parts.deep_view() =~= Seq::new(0, |j: int| method_summary(all[j])));
    while i < methods.len()
        invariant
            i <= methods@.len(),
            all == methods.deep_view(),
            parts.deep_view() == Seq::new(i as nat, |j: int| method_summary(all[j])),
        decreases methods@.len() - i,
    {
        add_item(&mut parts, summarize_method(&methods[i]));
        assert(parts.deep_view() =~= Seq::new((i + 1) as nat, |j: int| method_summary(all[j])));
        i = i + 1;
    }
    let mut s = name.clone();
    s.append(": ");
    s.append(join(&parts, "; ").as_str());
    s
}

/// The summary of a contract: one line for each class, its methods as
/// `Ret name(params) = 0`.
pub fn summarize_classes(classes: &Vec<(String, Vec<HalContractMethod>)>) -> (r: String)
    ensures
        r@ == contract_summary(classes.deep_view()),
{
    let ghost all = classes.deep_view();
    let mut rows: Vec<String> = Vec::new();
    let mut i: usize = 0;
    assert(rows.deep_view() =~= Seq::new(0, |j: int| class_summary(all[j])));
    while i < classes.len()
        invariant
            i <= classes@.len(),
            all == classes.deep_view(),
            rows.deep_view() == Seq::new(i as nat, |j: int| class_summary(all[j])),
        decreases classes@.len() - i,
    {
        add_item(&mut rows, summarize_class(&classes[i].0, &classes[i].1));
        assert(rows.deep_view() =~= Seq::new((i + 1) as nat, |j: int| class_summary(all[j])));
        i = i + 1;
    }
    join(&rows, "\n")
}

/// Checks a proposed contract header and summarizes it. A header without a
/// public pure-virtual method is refused.
pub fn summarize_hal_header(content: &str) -> (r: Result<String, String>)
    ensures
        (match r {
            Ok(s) => contract_classes(content@).len() > 0 && s@ == contract_summary(
                contract_classes(content@),
            ),
            Err(e) => contract_classes(content@).len() == 0 && e@
                == "no public pure-virtual methods found in HAL header"@,
        }),
{
    let classes = extract_contract_methods_cpp(content);
    if classes.len() == 0 {
        return Err("no public pure-virtual methods found in HAL header".to_owned());
    }
    Ok(summarize_classes(&classes))
}

/// The first `n` parameters of a list, empty ones left out.
pub open spec fn params_upto(parts: Seq<Seq<char>>, n: int) -> Seq<Seq<char>>
    decreases n,
{
    if n <= 0 {
        Seq::empty()
    } else {
        let done = params_upto(parts, n - 1);
        let p = trimmed(parts[n - 1]);
        if p.len() == 0 {
            done
        } else {
            done.push(p)
        }
    }
}

/// A parameter list without its default values.
pub open spec fn bare_params(text: Seq<char>) -> Seq<char> {
    let parts = pieces(without_defaults(text), ',');
    joined(params_upto(parts, parts.len() as int), ", "@)
}

/// The parenthesis that closes the depth `depth`, from `i` on.
pub open spec fn paren_from(s: Seq<char>, depth: int, i: int) -> Option<int>
    decreases s.len() - i,
{
    if i < 0 || i >= s.len() {
        None
    } else if s[i] == '(' {
        paren_from(s, depth + 1, i + 1)
    } else if s[i] == ')' {
        if depth <= 1 {
            Some(i)
        } else {
            paren_from(s, depth - 1, i + 1)
        }
    } else {
        paren_from(s, depth, i + 1)
    }
}

/// The method that one part of a summary line states, if it states one.
pub open spec fn parsed_method(part: Seq<char>) -> Option<HalContractMethodView> {
    let t = trimmed(part);
    match find_from(t, "("@, 0) {
        None => None,
        Some(po) => match paren_from(t, 0, po) {
            None => None,
            Some(pc) => {
                let tokens = word_seq(trimmed_end(before(t, po)));
                if tokens.len() == 0 {
                    None
                } else {
                    Some(
                        HalContractMethodView {
                            name: tokens.last(),
                            return_type: joined(tokens.drop_last(), " "@),
                            params: bare_params(t.subrange(po + 1, pc)),
                        },
                    )
                }
            },
        },
    }
}

/// The methods that the first `n` parts of a summary line state.
pub open spec fn parsed_methods(parts: Seq<Seq<char>>, n: int) -> Seq<HalContractMethodView>
    decreases n,
{
    if n <= 0 {
        Seq::empty()
    } else {
        let done = parsed_methods(parts, n - 1);
        match parsed_method(parts[n - 1]) {
            Some(m) => done.push(m),
            None => done,
        }
    }
}

/// The class that a summary line states, if it states one with a method.
pub open spec fn parsed_class(line: Seq<char>) -> Option<(Seq<char>, Seq<HalContractMethodView>)> {
    let t = trimmed(line);
    match find_from(t, ":"@, 0) {
        None => None,
        Some(colon) => {
            let parts = pieces(after(t, colon + 1), ';');
            let methods = parsed_methods(parts, parts.len() as int);
            if methods.len() == 0 {
                None
            } else {
                Some((trimmed(before(t, colon)), methods))
            }
        },
    }
}

/// The classes that the first `n` lines of a summary state.
pub open spec fn parsed_classes(rows: Seq<Seq<char>>, n: int) -> Seq<
    (Seq<char>, Seq<HalContractMethodView>),
>
    decreases n,
{
    if n <= 0 {
        Seq::empty()
    } else {
        let done = parsed_classes(rows, n - 1);
        match parsed_class(rows[n - 1]) {
            Some(c) => done.push(c),
            None => done,
        }
    }
}

/// The classes that a summary states.
pub open spec fn parsed_summary(summary: Seq<char>) -> Seq<(Seq<char>, Seq<HalContractMethodView>)> {
    parsed_classes(line_seq(summary), line_seq(summary).len() as int)
}

fn strip_params(text: &str) -> (r: String)
    ensures
        r@ == bare_params(text@),
{
    let parts = split(drop_defaults(text).as_str(), ',');
    let mut out: Vec<String> = Vec::new();
    assert(out.deep_view() =~= Seq::empty());
    let mut i: usize = 0;
    while i < parts.len()
        invariant
            i <= parts@.len(),
            out.deep_view() == params_upto(parts.deep_view(), i as int),
        decreases parts@.len() - i,
    {
        let p = trim(parts[i].as_str());
        if p.unicode_len() > 0 {
            add_item(&mut out, p.to_owned());
        }
        i = i + 1;
    }
    join(&out, ", ")
}

/// The parenthesis that matches the one at `po`.
pub fn find_paren(s: &Vec<char>, po: usize) -> (r: Option<usize>)
    requires
        po < s@.len(),
        s@[po as int] == '(',
    ensures
        (match r {
            Some(k) => paren_from(s@, 0, po as int) == Some(k as int) && po < k && k < s@.len(),
            None => paren_from(s@, 0, po as int) is None,
        }),
{
    let mut depth: usize = 0;
    let mut i: usize = po;
    while i < s.len()
        invariant
            po <= i <= s@.len(),
            s@[po as int] == '(',
            depth <= i - po,
            po < i ==> depth >= 1,
            paren_from(s@, 0, po as int) == paren_from(s@, depth as int, i as int),
        decreases s@.len() - i,
    {
        if s[i] == '(' {
            depth = depth + 1;
        } else if s[i] == ')' {
            if depth <= 1 {
                return Some(i);
            }
            depth = depth - 1;
        }
        i = i + 1;
    }
    None
}

fn parse_method(part: &str) -> (r: Option<HalContractMethod>)
    ensures
        r.deep_view() == parsed_method(part@),
{
    proof {
        reveal_strlit("(");
        reveal_strlit(")");
    }
    let t = trim(part);
    let po: usize = match find(t, "(") {
        Some(k) => k,
        None => {
            return None;
        },
    };
    assert(t@.subrange(po as int, po + 1)[0] == '(');
    let pc: usize = match find_paren(&chars_of(t), po) {
        Some(k) => k,
        None => {
            return None;
        },
    };
    let mut tokens = words(trim_end(head_of(t, po)));
    let ghost all = tokens.deep_view();
    if tokens.len() == 0 {
        return None;
    }
    let name = match tokens.pop() {
        Some(name) => name,
        None => {
            return None;
        },
    };
    assert(tokens.deep_view() =~= all.drop_last());
    let return_type = join(&tokens, " ");
    let params = strip_params(t.substring_char(po + 1, pc));
    Some(HalContractMethod { name, return_type, params })
}

fn parse_class(line: &str) -> (r: Option<(String, Vec<HalContractMethod>)>)
    ensures
        r.deep_view() == parsed_class(line@),
{
    proof {
        reveal_strlit(":");
    }
    let t = trim(line);
    let n: usize = t.unicode_len();
    let colon: usize = match find(t, ":") {
        Some(k) => k,
        None => {
            return None;
        },
    };
    let parts = split(tail_of(t, colon + 1), ';');
    let mut methods: Vec<HalContractMethod> = Vec::new();
    assert(methods.deep_view() =~= Seq::empty());
    let mut i: usize = 0;
    while i < parts.len()
        invariant
            i <= parts@.len(),
            methods.deep_view() == parsed_methods(parts.deep_view(), i as int),
        decreases parts@.len() - i,
    {
        match parse_method(parts[i].as_str()) {
            Some(m) => {
                add_item(&mut methods, m);
            },
            None => {},
        }
        i = i + 1;
    }
    if methods.len() == 0 {
        None
    } else {
        Some((trim(head_of(t, colon)).to_owned(), methods))
    }
}

/// Parses a contract summary into `(class name, methods)` for each line that
/// states a method. The last word before the parenthesis is the method's name,
/// the words before it its return type; default values of parameters are left
/// out.
pub fn parse_hal_contract_summary(summary: &str) -> (r: Vec<(String, Vec<HalContractMethod>)>)
    ensures
        r.deep_view() == parsed_summary(summary@),
{
    let rows = lines(summary);
    let mut out: Vec<(String, Vec<HalContractMethod>)> = Vec::new();
    assert(out.deep_view() =~= Seq::empty());
    let mut i: usize = 0;
    while i < rows.len()
        invariant
            i <= rows@.len(),
            out.deep_view() == parsed_classes(rows.deep_view(), i as int),
        decreases rows@.len() - i,
    {
        match parse_class(rows[i].as_str()) {
            Some(c) => {
                add_item(&mut out, c);
            },
            None => {},
        }
        i = i + 1;
    }
    out
}

// ---------------------------------------------------------------------------
// Differences
// ---------------------------------------------------------------------------

/// The structural difference between two contract summaries.
#[derive(Debug, PartialEq, Eq)]
pub struct HalContractChange {
    /// Methods of the new contract that the old one lacks.
    pub added: Vec<String>,
    /// Methods of the old contract that the new one lacks.
    pub removed: Vec<String>,
    /// Methods whose return type or parameters changed: name and `old → new`.
    pub changed: Vec<(String, String)>,
}

/// What a [`HalContractChange`] holds.
#[verifier::ext_equal]
pub struct HalContractChangeView {
    pub added: Seq<Seq<char>>,
    pub removed: Seq<Seq<char>>,
    pub changed: Seq<(Seq<char>, Seq<char>)>,
}

impl DeepView for HalContractChange {
    type V = HalContractChangeView;

    open spec fn deep_view(&self) -> HalContractChangeView {
        HalContractChangeView {
            added: self.added.deep_view(),
            removed: self.removed.deep_view(),
            changed: self.changed.deep_view(),
        }
    }
}

/// The methods of the first `n` classes, one after the other.
pub open spec fn flat_methods(
    classes: Seq<(Seq<char>, Seq<HalContractMethodView>)>,
    n: int,
) -> Seq<HalContractMethodView>
    decreases n,
{
    if n <= 0 {
        Seq::empty()
    } else {
        flat_methods(classes, n - 1) + classes[n - 1].1
    }
}

/// The methods that a summary states, one after the other.
pub open spec fn summary_methods(summary: Seq<char>) -> Seq<HalContractMethodView> {
    flat_methods(parsed_summary(summary), parsed_summary(summary).len() as int)
}

/// The names of methods.
pub open spec fn method_names(methods: Seq<HalContractMethodView>) -> Seq<Seq<char>> {
    Seq::new(methods.len(), |i: int| methods[i].name)
}

/// The first method of the name from position `k` on.
pub open spec fn method_from(
    methods: Seq<HalContractMethodView>,
    name: Seq<char>,
    k: int,
) -> Option<HalContractMethodView>
    decreases methods.len() - k,
{
    if k < 0 || k >= methods.len() {
        None
    } else if methods[k].name == name {
        Some(methods[k])
    } else {
        method_from(methods, name, k + 1)
    }
}

/// The first method of the name.
pub open spec fn method_named(methods: Seq<HalContractMethodView>, name: Seq<char>) -> Option<
    HalContractMethodView,
> {
    method_from(methods, name, 0)
}

/// The names of methods, each once, in dictionary order.
pub open spec fn sorted_names(methods: Seq<HalContractMethodView>) -> Seq<Seq<char>> {
    sorted(distinct(method_names(methods)))
}

/// The names among the first `n` that no method of the list has.
pub open spec fn names_without(
    names: Seq<Seq<char>>,
    methods: Seq<HalContractMethodView>,
    n: int,
) -> Seq<Seq<char>>
    decreases n,
{
    if n <= 0 {
        Seq::empty()
    } else {
        let done = names_without(names, methods, n - 1);
        if method_named(methods, names[n - 1]) is None {
            done.push(names[n - 1])
        } else {
            done
        }
    }
}

/// The names of the second list of methods that the first one lacks.
pub open spec fn names_added(
    old_methods: Seq<HalContractMethodView>,
    new_methods: Seq<HalContractMethodView>,
) -> Seq<Seq<char>> {
    let names = sorted_names(new_methods);
    names_without(names, old_methods, names.len() as int)
}

/// The signature of a method as a change states it.
pub open spec fn changed_signature(m: HalContractMethodView, name: Seq<char>) -> Seq<char> {
    trimmed(m.return_type) + " "@ + name + "("@ + m.params + ")"@
}

/// Two methods of one name differ in return type or parameters.
pub open spec fn signature_differs(a: HalContractMethodView, b: HalContractMethodView) -> bool {
    trimmed(a.return_type) != trimmed(b.return_type) || trimmed(a.params) != trimmed(b.params)
}

/// What changed of the methods with the first `n` names.
pub open spec fn changes_upto(
    names: Seq<Seq<char>>,
    old_methods: Seq<HalContractMethodView>,
    new_methods: Seq<HalContractMethodView>,
    n: int,
) -> Seq<(Seq<char>, Seq<char>)>
    decreases n,
{
    if n <= 0 {
        Seq::empty()
    } else {
        let done = changes_upto(names, old_methods, new_methods, n - 1);
        let name = names[n - 1];
        match (method_named(old_methods, name), method_named(new_methods, name)) {
            (Some(a), Some(b)) => if signature_differs(a, b) {
                done.push((name, changed_signature(a, name) + " → "@ + changed_signature(b, name)))
            } else {
                done
            },
            _ => done,
        }
    }
}

/// The difference between two lists of methods.
pub open spec fn methods_diff(
    old_methods: Seq<HalContractMethodView>,
    new_methods: Seq<HalContractMethodView>,
) -> HalContractChangeView {
    let names = sorted_names(new_methods);
    HalContractChangeView {
        added: names_added(old_methods, new_methods),
        removed: names_added(new_methods, old_methods),
        changed: changes_upto(names, old_methods, new_methods, names.len() as int),
    }
}

/// The difference between two contract summaries.
pub open spec fn contract_diff(old_summary: Seq<char>, new_summary: Seq<char>) -> HalContractChangeView {
    methods_diff(summary_methods(old_summary), summary_methods(new_summary))
}

/// The methods of all classes, one after the other.
pub fn flatten_methods(classes: &Vec<(String, Vec<HalContractMethod>)>) -> (r: Vec<HalContractMethod>)
    ensures
        r.deep_view() == flat_methods(classes.deep_view(), classes@.len() as int),
{
    let ghost all = classes.deep_view();
    let mut out: Vec<HalContractMethod> = Vec::new();
    assert(out.deep_view() =~= Seq::empty());
    let mut i: usize = 0;
    while i < classes.len()
        invariant
            i <= classes@.len(),
            all == classes.deep_view(),
            out.deep_view() == flat_methods(all, i as int),
        decreases classes@.len() - i,
    {
        let more = copy_hal_contract_methods(&classes[i].1);
        assert(more.deep_view() == all[i as int].1);
        add_items(&mut out, more);
        i = i + 1;
    }
    out
}

fn methods_of_summary(summary: &str) -> (r: Vec<HalContractMethod>)
    ensures
        r.deep_view() == summary_methods(summary@),
{
    flatten_methods(&parse_hal_contract_summary(summary))
}

/// The names of methods.
pub fn names_of_methods(methods: &Vec<HalContractMethod>) -> (r: Vec<String>)
    ensures
        r.deep_view() == method_names(methods.deep_view()),
{
    let ghost all = methods.deep_view();
    let mut out: Vec<String> = Vec::new();
    let mut i: usize = 0;
    assert(out.deep_view() =~= Seq::new(0, |j: int| all[j].name));
    while i < methods.len()
        invariant
            i <= methods@.len(),
            all == methods.deep_view(),
            out.deep_view() == Seq::new(i as nat, |j: int| all[j].name),
        decreases methods@.len() - i,
    {
        add_item(&mut out, methods[i].name.clone());
        assert(out.deep_view() =~= Seq::new((i + 1) as nat, |j: int| all[j].name));
        i = i + 1;
    }
    out
}

/// The index of the first method of the name.
pub fn find_method(methods: &Vec<HalContractMethod>, name: &str) -> (r: Option<usize>)
    ensures
        (match r {
            Some(k) => k < methods.len() && method_named(methods.deep_view(), name@) == Some(
                methods.deep_view()[k as int],
            ),
            None => method_named(methods.deep_view(), name@) is None,
        }),
{
    let mut k: usize = 0;
    while k < methods.len()
        invariant
            k <= methods@.len(),
            method_named(methods.deep_view(), name@) == method_from(
                methods.deep_view(),
                name@,
                k as int,
            ),
        decreases methods@.len() - k,
    {
        if same(methods[k].name.as_str(), name) {
            return Some(k);
        }
        k = k + 1;
    }
    None
}

fn missing_names(names: &Vec<String>, methods: &Vec<HalContractMethod>) -> (r: Vec<String>)
    ensures
        r.deep_view() == names_without(
            names.deep_view(),
            methods.deep_view(),
            names.deep_view().len() as int,
        ),
{
    let mut out: Vec<String> = Vec::new();
    assert(out.deep_view() =~= Seq::empty());
    let mut i: usize = 0;
    while i < names.len()
        invariant
            i <= names@.len(),
            out.deep_view() == names_without(names.deep_view(), methods.deep_view(), i as int),
        decreases names@.len() - i,
    {
        if find_method(methods, names[i].as_str()).is_none() {
            add_item(&mut out, names[i].clone());
        }
        i = i + 1;
    }
    out
}

fn signature_for_change(m: &HalContractMethod, name: &str) -> (r: String)
    ensures
        r@ == changed_signature(m.deep_view(), name@),
{
    let mut s = trim(m.return_type.as_str()).to_owned();
    s.append(" ");
    s.append(name);
    s.append("(");
    s.append(m.params.as_str());
    s.append(")");
    s
}

/// Compares two contract summaries. Methods are keyed by name, the first of a
/// name counting; names come in dictionary order.
pub fn diff_hal_contracts(old_summary: &str, new_summary: &str) -> (r: HalContractChange)
    ensures
        r.deep_view() == contract_diff(old_summary@, new_summary@),
{
    let old_methods = methods_of_summary(old_summary);
    let new_methods = methods_of_summary(new_summary);
    let old_names = sort(&without_repeats(&names_of_methods(&old_methods)));
    let new_names = sort(&without_repeats(&names_of_methods(&new_methods)));
    let ghost names = new_names.deep_view();
    let mut changed: Vec<(String, String)> = Vec::new();
    assert(changed.deep_view() =~= Seq::empty());
    let mut i: usize = 0;
    while i < new_names.len()
        invariant
            i <= new_names@.len(),
            names == new_names.deep_view(),
            changed.deep_view() == changes_upto(
                names,
                old_methods.deep_view(),
                new_methods.deep_view(),
                i as int,
            ),
        decreases new_names@.len() - i,
    {
        let name = new_names[i].as_str();
        match (find_method(&old_methods, name), find_method(&new_methods, name)) {
            (Some(x), Some(y)) => {
                let a = &old_methods[x];
                let b = &new_methods[y];
                let differs = !same(trim(a.return_type.as_str()), trim(b.return_type.as_str()))
                    || !same(trim(a.params.as_str()), trim(b.params.as_str()));
                if differs {
                    let mut s = signature_for_change(a, name);
                    s.append(" → ");
                    s.append(signature_for_change(b, name).as_str());
                    add_item(&mut changed, (name.to_owned(), s));
                }
            },
            _ => {},
        }
        i = i + 1;
    }
    HalContractChange {
        added: missing_names(&new_names, &old_methods),
        removed: missing_names(&old_names, &new_methods),
        changed,
    }
}

} // verus!
