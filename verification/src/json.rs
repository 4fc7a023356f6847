//! JSON texts as lists of values, and how they are read.

use vstd::prelude::*;

use crate::text::{add_item, same};

verus! {

/// What an item of a JSON text is.
#[derive(Debug, Clone, Copy, PartialEq, Eq, Structural)]
pub enum JsonKind {
    /// A string.
    Text,
    /// The start of an array.
    List,
    /// The start of an object.
    Object,
    /// A number, a truth value or null.
    Literal,
    /// The end of the array or object that was started last.
    End,
}

/// One item of a JSON text, in the order in which the text has them.
#[derive(Debug, PartialEq, Eq)]
pub struct JsonItem {
    pub kind: JsonKind,
    /// The key under which an object holds it; empty elsewhere.
    pub key: String,
    /// The characters of a string; empty elsewhere.
    pub text: String,
}

/// What a [`JsonItem`] holds.
#[verifier::ext_equal]
pub struct JsonItemView {
    pub kind: JsonKind,
    pub key: Seq<char>,
    pub text: Seq<char>,
}

impl DeepView for JsonItem {
    type V = JsonItemView;

    open spec fn deep_view(&self) -> JsonItemView {
        JsonItemView { kind: self.kind, key: self.key@, text: self.text@ }
    }
}

/// A JSON value of `serde_json`.
#[verifier::external_type_specification]
#[verifier::external_body]
pub struct ExJsonValue(serde_json::Value);

/// What a JSON value holds.
pub enum JsonShape {
    /// A number, a truth value or null.
    Literal,
    Text(Seq<char>),
    List(Seq<JsonShape>),
    Object(Seq<(Seq<char>, JsonShape)>),
}

/// What a `serde_json::Value` holds, the members of an object in the order of its
/// map.
pub uninterp spec fn json_shape(value: serde_json::Value) -> JsonShape;

/// What `serde_json` reads from a text, or what it says of one that is no JSON.
pub uninterp spec fn json_parsed(text: Seq<char>) -> Result<JsonShape, Seq<char>>;

/// `serde_json::from_str` into a `serde_json::Value`: the value, or the error as
/// text, a function of the text alone.
#[verifier::external_body]
pub(crate) fn parse_value(text: &str) -> (r: Result<serde_json::Value, String>)
    ensures
        (match r {
            Ok(value) => json_parsed(text@) == Ok::<JsonShape, Seq<char>>(json_shape(value)),
            Err(e) => json_parsed(text@) == Err::<JsonShape, Seq<char>>(e@),
        }),
{
    serde_json::from_str(text).map_err(|e: serde_json::Error| e.to_string())
}

/// One level of a JSON value.
pub enum JsonPart<'a> {
    Literal,
    Text(String),
    List(Vec<&'a serde_json::Value>),
    Object(Vec<(String, &'a serde_json::Value)>),
}

/// The variants of `serde_json::Value`, told apart: the characters of a string,
/// the values of an array, and the keys and values of an object, each as the
/// variant holds them.
#[verifier::external_body]
pub(crate) fn unpack<'a>(value: &'a serde_json::Value) -> (r: JsonPart<'a>)
    ensures
        (match r {
            JsonPart::Literal => json_shape(*value) == JsonShape::Literal,
            JsonPart::Text(s) => json_shape(*value) == JsonShape::Text(s@),
            JsonPart::List(v) => json_shape(*value) == JsonShape::List(
                Seq::new(v@.len(), |i: int| json_shape(*v@[i])),
            ),
            JsonPart::Object(v) => json_shape(*value) == JsonShape::Object(
                Seq::new(v@.len(), |i: int| (v@[i].0@, json_shape(*v@[i].1))),
            ),
        }),
{
    match value {
        serde_json::Value::Null => JsonPart::Literal,
        serde_json::Value::Bool(_) => JsonPart::Literal,
        serde_json::Value::Number(_) => JsonPart::Literal,
        serde_json::Value::String(s) => JsonPart::Text(s.clone()),
        serde_json::Value::Array(a) => JsonPart::List(a.iter().collect()),
        serde_json::Value::Object(o) => JsonPart::Object(o.iter().map(|(k, v)| (k.clone(), v)).collect()),
    }
}

/// An item with no text.
pub open spec fn bare_item(kind: JsonKind, key: Seq<char>) -> JsonItemView {
    JsonItemView { kind, key, text: Seq::empty() }
}

/// How many values an array or object has.
pub open spec fn width_of(shape: JsonShape) -> nat {
    match shape {
        JsonShape::List(v) => v.len(),
        JsonShape::Object(v) => v.len(),
        _ => 0,
    }
}

/// The items of a value: an array or object before its members, and closed behind
/// them.
pub open spec fn flat(shape: JsonShape, key: Seq<char>) -> Seq<JsonItemView>
    decreases shape, width_of(shape) + 1,
{
    match shape {
        JsonShape::Literal => seq![bare_item(JsonKind::Literal, key)],
        JsonShape::Text(s) => seq![JsonItemView { kind: JsonKind::Text, key, text: s }],
        JsonShape::List(v) => seq![bare_item(JsonKind::List, key)] + flat_upto(
            shape,
            v.len() as int,
        ) + seq![bare_item(JsonKind::End, Seq::empty())],
        JsonShape::Object(v) => seq![bare_item(JsonKind::Object, key)] + flat_upto(
            shape,
            v.len() as int,
        ) + seq![bare_item(JsonKind::End, Seq::empty())],
    }
}

/// The items of the first `n` members of an array or object.
pub open spec fn flat_upto(shape: JsonShape, n: int) -> Seq<JsonItemView>
    decreases shape, n,
{
    if n <= 0 || n > width_of(shape) {
        Seq::empty()
    } else {
        match shape {
            JsonShape::List(v) => flat_upto(shape, n - 1) + flat(v[n - 1], Seq::empty()),
            JsonShape::Object(v) => flat_upto(shape, n - 1) + flat(v[n - 1].1, v[n - 1].0),
            _ => Seq::empty(),
        }
    }
}

/// The items of a JSON text, or what is wrong with it.
pub open spec fn json_items(text: Seq<char>) -> Result<Seq<JsonItemView>, Seq<char>> {
    match json_parsed(text) {
        Ok(shape) => Ok(flat(shape, Seq::empty())),
        Err(e) => Err(e),
    }
}

fn bare(kind: JsonKind, key: String) -> (r: JsonItem)
    ensures
        r.deep_view() == bare_item(kind, key@),
{
    let text = String::new();
    assert(text@ =~= Seq::empty());
    JsonItem { kind, key, text }
}

fn flatten(value: &serde_json::Value, key: String, out: &mut Vec<JsonItem>)
    ensures
        final(out).deep_view() == old(out).deep_view() + flat(json_shape(*value), key@),
    decreases json_shape(*value),
{
    let ghost start = out.deep_view();
    let ghost shape = json_shape(*value);
    let ghost name = key@;
    match unpack(value) {
        JsonPart::Literal => {
            add_item(out, bare(JsonKind::Literal, key));
            assert(out.deep_view() =~= start + flat(shape, name));
        },
        JsonPart::Text(text) => {
            add_item(out, JsonItem { kind: JsonKind::Text, key, text });
            assert(out.deep_view() =~= start + flat(shape, name));
        },
        JsonPart::List(v) => {
            add_item(out, bare(JsonKind::List, key));
            let ghost head = out.deep_view();
            let mut i: usize = 0;
            assert(out.deep_view() =~= head + flat_upto(shape, 0));
            while i < v.len()
                invariant
                    i <= v@.len(),
                    shape == json_shape(*value),
                    shape == JsonShape::List(Seq::new(v@.len(), |j: int| json_shape(*v@[j]))),
                    out.deep_view() == head + flat_upto(shape, i as int),
                decreases v@.len() - i,
            {
                let none = String::new();
                assert(none@ =~= Seq::empty());
                assert(shape->List_0[i as int] == json_shape(*v@[i as int]));
                flatten(v[i], none, out);
                assert(out.deep_view() =~= head + flat_upto(shape, i + 1));
                i = i + 1;
            }
            let none = String::new();
            assert(none@ =~= Seq::empty());
            add_item(out, bare(JsonKind::End, none));
            assert(out.deep_view() =~= start + flat(shape, name));
        },
        JsonPart::Object(v) => {
            add_item(out, bare(JsonKind::Object, key));
            let ghost head = out.deep_view();
            let mut i: usize = 0;
            assert(out.deep_view() =~= head + flat_upto(shape, 0));
            while i < v.len()
                invariant
                    i <= v@.len(),
                    shape == json_shape(*value),
                    shape == JsonShape::Object(
                        Seq::new(v@.len(), |j: int| (v@[j].0@, json_shape(*v@[j].1))),
                    ),
                    out.deep_view() == head + flat_upto(shape, i as int),
                decreases v@.len() - i,
            {
                assert(shape->Object_0[i as int] == (
                    v@[i as int].0@,
                    json_shape(*v@[i as int].1),
                ));
                let ghost pair = shape->Object_0[i as int];
                assert(decreases_to!(shape => pair));
                assert(decreases_to!(pair => pair.1));
                flatten(v[i].1, v[i].0.clone(), out);
                assert(out.deep_view() =~= head + flat_upto(shape, i + 1));
                i = i + 1;
            }
            let none = String::new();
            assert(none@ =~= Seq::empty());
            add_item(out, bare(JsonKind::End, none));
            assert(out.deep_view() =~= start + flat(shape, name));
        },
    }
}

/// The items of a value, under no key.
pub fn json_items_of(value: &serde_json::Value) -> (r: Vec<JsonItem>)
    ensures
        r.deep_view() == flat(json_shape(*value), Seq::empty()),
{
    let mut items: Vec<JsonItem> = Vec::new();
    let none = String::new();
    assert(none@ =~= Seq::empty());
    assert(items.deep_view() =~= Seq::empty());
    flatten(value, none, &mut items);
    assert(Seq::<JsonItemView>::empty() + flat(json_shape(*value), Seq::empty()) =~= flat(
        json_shape(*value),
        Seq::empty(),
    ));
    items
}

/// Reads a JSON text: its items in order, or what is wrong with it.
pub fn parse_json(text: &str) -> (r: Result<Vec<JsonItem>, String>)
    ensures
        (match r {
            Ok(items) => json_items(text@) == Ok::<Seq<JsonItemView>, Seq<char>>(items.deep_view()),
            Err(e) => json_items(text@) == Err::<Seq<JsonItemView>, Seq<char>>(e@),
        }),
{
    match parse_value(text) {
        Ok(value) => Ok(json_items_of(&value)),
        Err(e) => Err(e),
    }
}

/// The index behind the end that closes `depth` open arrays and objects, from
/// `k` on.
pub open spec fn close_from(items: Seq<JsonItemView>, depth: int, k: int) -> int
    decreases items.len() - k,
{
    if k < 0 || k >= items.len() {
        items.len() as int
    } else if depth <= 0 {
        k
    } else {
        match items[k].kind {
            JsonKind::List | JsonKind::Object => close_from(items, depth + 1, k + 1),
            JsonKind::End => close_from(items, depth - 1, k + 1),
            _ => close_from(items, depth, k + 1),
        }
    }
}

/// The index behind the value at `i`.
pub open spec fn value_end(items: Seq<JsonItemView>, i: int) -> int {
    match items[i].kind {
        JsonKind::List | JsonKind::Object => close_from(items, 1, i + 1),
        _ => i + 1,
    }
}

pub proof fn close_from_bounds(items: Seq<JsonItemView>, depth: int, k: int)
    requires
        0 <= k <= items.len(),
    ensures
        k <= close_from(items, depth, k) <= items.len(),
    decreases items.len() - k,
{
    if k < items.len() && depth > 0 {
        close_from_bounds(items, depth + 1, k + 1);
        close_from_bounds(items, depth - 1, k + 1);
        close_from_bounds(items, depth, k + 1);
    }
}

/// The index behind the value at `i`.
pub fn end_of_value(items: &Vec<JsonItem>, i: usize) -> (r: usize)
    requires
        i < items.len(),
    ensures
        r == value_end(items.deep_view(), i as int),
        i < r <= items@.len(),
{
    let ghost all = items.deep_view();
    assert(all[i as int] == items[i as int].deep_view());
    match items[i].kind {
        JsonKind::List | JsonKind::Object => {},
        _ => {
            return i + 1;
        },
    }
    let mut depth: usize = 1;
    let mut k: usize = i + 1;
    while k < items.len() && depth > 0
        invariant
            i < k <= items@.len(),
            depth <= k - i,
            all == items.deep_view(),
            close_from(all, 1, i + 1) == close_from(all, depth as int, k as int),
        decreases items@.len() - k,
    {
        assert(all[k as int] == items[k as int].deep_view());
        match items[k].kind {
            JsonKind::List | JsonKind::Object => {
                depth = depth + 1;
            },
            JsonKind::End => {
                depth = depth - 1;
            },
            _ => {},
        }
        k = k + 1;
    }
    k
}

/// The members from index `k` on, up to the end of their array or object.
pub open spec fn members_from(items: Seq<JsonItemView>, k: int) -> Seq<int>
    decreases items.len() - k,
{
    if k < 0 || k >= items.len() || items[k].kind == JsonKind::End {
        Seq::empty()
    } else {
        proof {
            close_from_bounds(items, 1, k + 1);
        }
        seq![k] + members_from(items, value_end(items, k))
    }
}

/// The members of the array or object at `i`; a value of another kind has none.
pub open spec fn members(items: Seq<JsonItemView>, i: int) -> Seq<int> {
    match items[i].kind {
        JsonKind::List | JsonKind::Object => members_from(items, i + 1),
        _ => Seq::empty(),
    }
}

/// A list of indices as mathematical integers.
pub open spec fn positions(v: Seq<usize>) -> Seq<int> {
    Seq::new(v.len(), |i: int| v[i] as int)
}

/// The list holds indices of the items.
pub open spec fn positions_fit(v: Seq<usize>, n: int) -> bool {
    forall|j: int| 0 <= j < v.len() ==> #[trigger] v[j] < n
}

/// The members of the array or object at `i`.
pub fn members_of(items: &Vec<JsonItem>, i: usize) -> (r: Vec<usize>)
    requires
        i < items.len(),
    ensures
        positions(r@) == members(items.deep_view(), i as int),
        positions_fit(r@, items@.len() as int),
{
    let ghost all = items.deep_view();
    let mut out: Vec<usize> = Vec::new();
    assert(all[i as int] == items[i as int].deep_view());
    assert(positions(out@) =~= Seq::empty());
    match items[i].kind {
        JsonKind::List | JsonKind::Object => {},
        _ => {
            return out;
        },
    }
    let mut k: usize = i + 1;
    assert(positions(out@) + members_from(all, k as int) =~= members_from(all, k as int));
    while k < items.len() && items[k].kind != JsonKind::End
        invariant
            i < k <= items@.len(),
            all == items.deep_view(),
            positions(out@) + members_from(all, k as int) == members_from(all, i + 1),
            positions_fit(out@, items@.len() as int),
        decreases items@.len() - k,
    {
        assert(all[k as int] == items[k as int].deep_view());
        let next: usize = end_of_value(items, k);
        let ghost done = positions(out@);
        let ghost rest = members_from(all, next as int);
        out.push(k);
        assert(positions(out@) + rest =~= done + (seq![k as int] + rest));
        k = next;
    }
    assert(k < items@.len() ==> all[k as int] == items[k as int].deep_view());
    assert(positions(out@) + Seq::<int>::empty() =~= positions(out@));
    out
}

/// The first of the members under the key, from the `n`-th on.
pub open spec fn keyed_from(
    items: Seq<JsonItemView>,
    list: Seq<int>,
    key: Seq<char>,
    n: int,
) -> Option<int>
    decreases list.len() - n,
{
    if n < 0 || n >= list.len() {
        None
    } else if items[list[n]].key == key {
        Some(list[n])
    } else {
        keyed_from(items, list, key, n + 1)
    }
}

/// The value under the key of the object at `i`; `None` where it has none or is
/// no object.
pub open spec fn member(items: Seq<JsonItemView>, i: int, key: Seq<char>) -> Option<int> {
    if 0 <= i < items.len() && items[i].kind == JsonKind::Object {
        keyed_from(items, members(items, i), key, 0)
    } else {
        None
    }
}

/// The value under the key of the object at `i`.
pub fn member_of(items: &Vec<JsonItem>, i: usize, key: &str) -> (r: Option<usize>)
    ensures
        (match r {
            Some(k) => member(items.deep_view(), i as int, key@) == Some(k as int) && k
                < items@.len(),
            None => member(items.deep_view(), i as int, key@) is None,
        }),
{
    let ghost all = items.deep_view();
    if i >= items.len() {
        return None;
    }
    assert(all[i as int] == items[i as int].deep_view());
    if items[i].kind != JsonKind::Object {
        return None;
    }
    let found = members_of(items, i);
    let ghost list = positions(found@);
    let mut n: usize = 0;
    while n < found.len()
        invariant
            n <= found@.len(),
            all == items.deep_view(),
            list == positions(found@),
            list == members(all, i as int),
            i < items@.len(),
            all[i as int].kind == JsonKind::Object,
            positions_fit(found@, items@.len() as int),
            keyed_from(all, list, key@, 0) == keyed_from(all, list, key@, n as int),
        decreases found@.len() - n,
    {
        let k: usize = found[n];
        assert(list[n as int] == k as int);
        assert(all[k as int] == items[k as int].deep_view());
        if same(items[k].key.as_str(), key) {
            return Some(k);
        }
        n = n + 1;
    }
    None
}

/// The characters of the string at `i`, where it is one.
pub open spec fn string_at(items: Seq<JsonItemView>, i: Option<int>) -> Option<Seq<char>> {
    match i {
        Some(k) => if 0 <= k < items.len() && items[k].kind == JsonKind::Text {
            Some(items[k].text)
        } else {
            None
        },
        None => None,
    }
}

/// A position as a mathematical integer.
pub open spec fn position(i: Option<usize>) -> Option<int> {
    match i {
        Some(k) => Some(k as int),
        None => None,
    }
}

/// The characters of the string at `i`, where it is one.
pub fn string_of(items: &Vec<JsonItem>, i: Option<usize>) -> (r: Option<String>)
    ensures
        r.deep_view() == string_at(items.deep_view(), position(i)),
{
    match i {
        Some(k) => {
            if k < items.len() {
                assert(items.deep_view()[k as int] == items[k as int].deep_view());
                if items[k].kind == JsonKind::Text {
                    return Some(items[k].text.clone());
                }
            }
            None
        },
        None => None,
    }
}

/// The characters of the string under the key of the object at `i`.
pub open spec fn string_under(items: Seq<JsonItemView>, i: int, key: Seq<char>) -> Option<Seq<char>> {
    string_at(items, member(items, i, key))
}

/// The characters of the string under the key of the object at `i`.
pub fn string_in(items: &Vec<JsonItem>, i: usize, key: &str) -> (r: Option<String>)
    ensures
        r.deep_view() == string_under(items.deep_view(), i as int, key@),
{
    string_of(items, member_of(items, i, key))
}

} // verus!
