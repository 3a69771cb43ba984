//! JSON values as the configuration files hold them.
//!
//! Reading and printing is `serde_json`'s; the value itself is the library's
//! own, so that what is looked up and changed in it can be stated.

use vstd::prelude::*;

use crate::text::{optional_text, same_text};

verus! {

/// A JSON number, carried as `serde_json` holds it.
#[verifier::external_type_specification]
#[verifier::external_body]
pub struct ExNumber(serde_json::Number);

/// A JSON value as `serde_json` holds it.
#[verifier::external_type_specification]
#[verifier::external_body]
pub struct ExValue(serde_json::Value);

/// Why `serde_json` refused a text.
#[verifier::external_type_specification]
#[verifier::external_body]
pub struct ExJsonError(serde_json::Error);

/// A JSON value. The entries of an object keep an order, which means nothing.
#[derive(Debug, PartialEq, Eq)]
pub enum Json {
    Null,
    Bool(bool),
    Number(serde_json::Number),
    Text(String),
    Array(Vec<Json>),
    Object(Vec<(String, Json)>),
}

/// What a JSON value holds.
pub enum JsonView {
    Null,
    Bool(bool),
    Number(serde_json::Number),
    Text(Seq<char>),
    Array(Seq<JsonView>),
    Object(Seq<(Seq<char>, JsonView)>),
}

impl Json {
    /// What the value holds.
    pub open spec fn view(self) -> JsonView
        decreases self,
    {
        match self {
            Json::Null => JsonView::Null,
            Json::Bool(value) => JsonView::Bool(value),
            Json::Number(number) => JsonView::Number(number),
            Json::Text(text) => JsonView::Text(text@),
            Json::Array(items) => JsonView::Array(
                Seq::new(
                    items@.len(),
                    |i: int|
                        if 0 <= i < items@.len() {
                            items@[i].view()
                        } else {
                            JsonView::Null
                        },
                ),
            ),
            Json::Object(entries) => JsonView::Object(
                Seq::new(
                    entries@.len(),
                    |i: int|
                        if 0 <= i < entries@.len() {
                            (entries@[i].0@, entries@[i].1.view())
                        } else {
                            (Seq::empty(), JsonView::Null)
                        },
                ),
            ),
        }
    }
}

/// What a list of values holds.
pub open spec fn items_view(items: Seq<Json>) -> Seq<JsonView> {
    items.map_values(|item: Json| item.view())
}

/// What the entries of an object hold.
pub open spec fn entries_view(entries: Seq<(String, Json)>) -> Seq<(Seq<char>, JsonView)> {
    entries.map_values(|entry: (String, Json)| (entry.0@, entry.1.view()))
}

/// An array holds its items.
pub proof fn lemma_array_view(items: Vec<Json>)
    ensures
        Json::Array(items).view() == JsonView::Array(items_view(items@)),
{
    assert(Json::Array(items).view()->Array_0 =~= items_view(items@));
}

/// An object holds its entries.
pub proof fn lemma_object_view(entries: Vec<(String, Json)>)
    ensures
        Json::Object(entries).view() == JsonView::Object(entries_view(entries@)),
{
    assert(Json::Object(entries).view()->Object_0 =~= entries_view(entries@));
}

/// The value that a text holds, if `serde_json::from_str` accepts it.
pub uninterp spec fn parsed_value(text: Seq<char>) -> Option<serde_json::Value>;

/// The text that `serde_json::to_string_pretty` gives for a value.
pub uninterp spec fn printed_value(value: serde_json::Value) -> Option<Seq<char>>;

/// What a `serde_json` value holds.
pub uninterp spec fn value_content(value: serde_json::Value) -> JsonView;

/// The `serde_json` value that holds what a value of the library holds.
pub uninterp spec fn content_value(content: JsonView) -> serde_json::Value;

/// `serde_json::from_str`: the value depends on the text alone.
#[verifier::external_body]
fn read_value(text: &str) -> (result: Result<serde_json::Value, serde_json::Error>)
    ensures
        match result {
            Ok(value) => parsed_value(text@) == Some(value),
            Err(_) => parsed_value(text@) is None,
        },
{
    serde_json::from_str(text)
}

/// `serde_json::to_string_pretty`: the text depends on the value alone.
#[verifier::external_body]
fn print_value(value: &serde_json::Value) -> (result: Result<String, serde_json::Error>)
    ensures
        match result {
            Ok(text) => printed_value(*value) == Some(text@),
            Err(_) => printed_value(*value) is None,
        },
{
    serde_json::to_string_pretty(value)
}

/// The text that a `serde_json` value is displayed as.
pub uninterp spec fn displayed_value(value: serde_json::Value) -> Seq<char>;

/// `Display` of a `serde_json::Value`, through `to_string`: the text depends on
/// the value alone.
#[verifier::external_body]
fn display_value(value: &serde_json::Value) -> (result: String)
    ensures
        result@ == displayed_value(*value),
{
    value.to_string()
}

/// Takes a `serde_json::Value` apart, variant by variant. Its map has every
/// key once, and so has the result, at every level.
#[verifier::external_body]
fn from_value(value: serde_json::Value) -> (result: Json)
    ensures
        result.view() == value_content(value),
        result.view().wf(),
{
    match value {
        serde_json::Value::Null => Json::Null,
        serde_json::Value::Bool(value) => Json::Bool(value),
        serde_json::Value::Number(number) => Json::Number(number),
        serde_json::Value::String(text) => Json::Text(text),
        serde_json::Value::Array(items) => Json::Array(items.into_iter().map(from_value).collect()),
        serde_json::Value::Object(entries) => Json::Object(
            entries.into_iter().map(|(key, value)| (key, from_value(value))).collect(),
        ),
    }
}

/// Builds a `serde_json::Value`, variant by variant.
#[verifier::external_body]
fn to_value(content: Json) -> (result: serde_json::Value)
    ensures
        result == content_value(content.view()),
{
    match content {
        Json::Null => serde_json::Value::Null,
        Json::Bool(value) => serde_json::Value::Bool(value),
        Json::Number(number) => serde_json::Value::Number(number),
        Json::Text(text) => serde_json::Value::String(text),
        Json::Array(items) => serde_json::Value::Array(items.into_iter().map(to_value).collect()),
        Json::Object(entries) => serde_json::Value::Object(
            entries.into_iter().map(|(key, value)| (key, to_value(value))).collect(),
        ),
    }
}

impl JsonView {
    /// Whether no object, at any level, has a key twice.
    pub open spec fn wf(self) -> bool
        decreases self,
    {
        match self {
            JsonView::Array(items) => forall|i: int|
                0 <= i < items.len() ==> (#[trigger] items[i]).wf(),
            JsonView::Object(entries) => {
                &&& distinct_keys(entries)
                &&& forall|i: int|
                    0 <= i < entries.len() ==> {
                        let entry = #[trigger] entries[i];
                        entry.1.wf()
                    }
            },
            _ => true,
        }
    }
}

/// The value under `key`, where there is one.
pub open spec fn lookup(entries: Seq<(Seq<char>, JsonView)>, key: Seq<char>) -> Option<JsonView>
    decreases entries.len(),
{
    if entries.len() == 0 {
        None
    } else if entries.first().0 == key {
        Some(entries.first().1)
    } else {
        lookup(entries.drop_first(), key)
    }
}

/// Whether no key occurs twice.
pub open spec fn distinct_keys(entries: Seq<(Seq<char>, JsonView)>) -> bool {
    forall|i: int, j: int|
        #![trigger entries[i], entries[j]]
        0 <= i < j < entries.len() ==> entries[i].0 != entries[j].0
}

/// The entries of an object as a map.
pub open spec fn entry_map(entries: Seq<(Seq<char>, JsonView)>) -> Map<Seq<char>, JsonView> {
    Map::new(|key: Seq<char>| lookup(entries, key) is Some, |key: Seq<char>| lookup(entries, key)->0)
}

/// Where the first entry with the key stands.
pub open spec fn is_first_entry(entries: Seq<(Seq<char>, JsonView)>, key: Seq<char>, index: int) -> bool {
    &&& 0 <= index < entries.len()
    &&& entries[index].0 == key
    &&& forall|i: int| 0 <= i < index ==> (#[trigger] entries[i]).0 != key
}

proof fn lemma_lookup_first(entries: Seq<(Seq<char>, JsonView)>, key: Seq<char>, index: int)
    requires
        is_first_entry(entries, key, index),
    ensures
        lookup(entries, key) == Some(entries[index].1),
    decreases index,
{
    if index > 0 {
        assert(entries[0].0 != key);
        let rest = entries.drop_first();
        assert(rest[index - 1] == entries[index]);
        assert forall|i: int| 0 <= i < index - 1 implies (#[trigger] rest[i]).0 != key by {
            assert(rest[i] == entries[i + 1]);
        }
        lemma_lookup_first(rest, key, index - 1);
    }
}

proof fn lemma_lookup_absent(entries: Seq<(Seq<char>, JsonView)>, key: Seq<char>)
    requires
        forall|i: int| 0 <= i < entries.len() ==> (#[trigger] entries[i]).0 != key,
    ensures
        lookup(entries, key) is None,
    decreases entries.len(),
{
    if entries.len() > 0 {
        assert(entries[0].0 != key);
        let rest = entries.drop_first();
        assert forall|i: int| 0 <= i < rest.len() implies (#[trigger] rest[i]).0 != key by {
            assert(rest[i] == entries[i + 1]);
        }
        lemma_lookup_absent(rest, key);
    }
}

/// A key is found exactly where some entry has it.
pub proof fn lemma_lookup_position(entries: Seq<(Seq<char>, JsonView)>, key: Seq<char>) -> (index: int)
    ensures
        lookup(entries, key) is Some ==> is_first_entry(entries, key, index) && lookup(entries, key)
            == Some(entries[index].1),
        lookup(entries, key) is None ==> forall|i: int|
            0 <= i < entries.len() ==> (#[trigger] entries[i]).0 != key,
    decreases entries.len(),
{
    if entries.len() == 0 {
        0
    } else if entries[0].0 == key {
        0
    } else {
        let rest = entries.drop_first();
        let inner = lemma_lookup_position(rest, key);
        if lookup(entries, key) is Some {
            assert(entries[inner + 1] == rest[inner]);
            assert forall|i: int| 0 <= i < inner + 1 implies (#[trigger] entries[i]).0 != key by {
                if i > 0 {
                    assert(entries[i] == rest[i - 1]);
                }
            }
        } else {
            assert forall|i: int| 0 <= i < entries.len() implies (#[trigger] entries[i]).0
                != key by {
                if i > 0 {
                    assert(entries[i] == rest[i - 1]);
                }
            }
        }
        inner + 1
    }
}

/// The entries with `value` under `key`: in the place of what was there, or
/// at the end.
pub open spec fn with_entry(
    entries: Seq<(Seq<char>, JsonView)>,
    key: Seq<char>,
    value: JsonView,
    result: Seq<(Seq<char>, JsonView)>,
) -> bool {
    if lookup(entries, key) is Some {
        exists|index: int| #[trigger]
            is_first_entry(entries, key, index) && result == entries.update(
                index,
                (entries[index].0, value),
            )
    } else {
        &&& result.len() == entries.len() + 1
        &&& result.drop_last() == entries
        &&& result.last().0 == key
        &&& result.last().1 == value
    }
}

/// Setting a key changes what is under it and nothing else.
pub proof fn lemma_with_entry(
    entries: Seq<(Seq<char>, JsonView)>,
    key: Seq<char>,
    value: JsonView,
    result: Seq<(Seq<char>, JsonView)>,
)
    requires
        with_entry(entries, key, value, result),
    ensures
        entry_map(result) == entry_map(entries).insert(key, value),
        distinct_keys(entries) ==> distinct_keys(result),
{
    let found = lemma_lookup_position(entries, key);
    assert forall|other: Seq<char>| #[trigger] lookup(result, other) == if other == key {
        Some(value)
    } else {
        lookup(entries, other)
    } by {
        let at = lemma_lookup_position(entries, other);
        if lookup(entries, key) is Some {
            let index = choose|index: int| #[trigger]
                is_first_entry(entries, key, index) && result == entries.update(
                    index,
                    (entries[index].0, value),
                );
            if other == key {
                assert(is_first_entry(result, key, index)) by {
                    assert forall|i: int| 0 <= i < index implies (#[trigger] result[i]).0
                        != key by {
                        assert(result[i] == entries[i]);
                    }
                }
                lemma_lookup_first(result, key, index);
            } else if lookup(entries, other) is Some {
                assert(is_first_entry(result, other, at)) by {
                    assert(result[at].0 == other);
                    assert forall|i: int| 0 <= i < at implies (#[trigger] result[i]).0
                        != other by {
                        assert(entries[i].0 != other);
                    }
                }
                lemma_lookup_first(result, other, at);
            } else {
                assert forall|i: int| 0 <= i < result.len() implies (#[trigger] result[i]).0
                    != other by {
                    assert(entries[i].0 != other);
                }
                lemma_lookup_absent(result, other);
            }
        } else {
            let last = entries.len() as int;
            assert forall|i: int| 0 <= i < last implies #[trigger] result[i] == entries[i] by {
                assert(result.drop_last()[i] == result[i]);
            }
            if other == key {
                assert(is_first_entry(result, key, last)) by {
                    assert forall|i: int| 0 <= i < last implies (#[trigger] result[i]).0
                        != key by {
                        assert(result[i] == entries[i]);
                    }
                }
                lemma_lookup_first(result, key, last);
            } else if lookup(entries, other) is Some {
                assert(is_first_entry(result, other, at)) by {
                    assert(result[at] == entries[at]);
                    assert forall|i: int| 0 <= i < at implies (#[trigger] result[i]).0
                        != other by {
                        assert(result[i] == entries[i]);
                    }
                }
                lemma_lookup_first(result, other, at);
            } else {
                assert forall|i: int| 0 <= i < result.len() implies (#[trigger] result[i]).0
                    != other by {
                    if i < last {
                        assert(result[i] == entries[i]);
                    }
                }
                lemma_lookup_absent(result, other);
            }
        }
    }
    assert(entry_map(result) =~= entry_map(entries).insert(key, value));
    if distinct_keys(entries) {
        if lookup(entries, key) is Some {
            let index = choose|index: int| #[trigger]
                is_first_entry(entries, key, index) && result == entries.update(
                    index,
                    (entries[index].0, value),
                );
            assert forall|i: int, j: int|
                #![trigger result[i], result[j]]
                0 <= i < j < result.len() implies result[i].0 != result[j].0 by {
                assert(entries[i].0 != entries[j].0);
            }
        } else {
            assert forall|i: int, j: int|
                #![trigger result[i], result[j]]
                0 <= i < j < result.len() implies result[i].0 != result[j].0 by {
                assert(result.drop_last()[i] == result[i]);
                if j < result.len() - 1 {
                    assert(result.drop_last()[j] == result[j]);
                    assert(entries[i].0 != entries[j].0);
                } else {
                    assert(entries[i].0 != key);
                }
            }
        }
    }
}

/// Removing the entry with a key leaves the others as they were.
pub proof fn lemma_without_entry(entries: Seq<(Seq<char>, JsonView)>, key: Seq<char>, index: int)
    requires
        distinct_keys(entries),
        is_first_entry(entries, key, index),
    ensures
        entry_map(entries.remove(index)) == entry_map(entries).remove(key),
        distinct_keys(entries.remove(index)),
{
    let result = entries.remove(index);
    assert forall|i: int, j: int|
        #![trigger result[i], result[j]]
        0 <= i < j < result.len() implies result[i].0 != result[j].0 by {
        let a = if i < index {
            i
        } else {
            i + 1
        };
        let b = if j < index {
            j
        } else {
            j + 1
        };
        assert(entries[a].0 != entries[b].0);
    }
    assert forall|other: Seq<char>| #[trigger] lookup(result, other) == if other == key {
        None
    } else {
        lookup(entries, other)
    } by {
        let at = lemma_lookup_position(entries, other);
        if other == key {
            assert forall|i: int| 0 <= i < result.len() implies (#[trigger] result[i]).0
                != key by {
                if i < index {
                    assert(result[i] == entries[i]);
                } else {
                    assert(result[i] == entries[i + 1]);
                    assert(entries[index].0 != entries[i + 1].0);
                }
            }
            lemma_lookup_absent(result, key);
        } else if lookup(entries, other) is Some {
            let new_at = if at < index {
                at
            } else {
                at - 1
            };
            assert(result[new_at] == entries[at]);
            assert(is_first_entry(result, other, new_at)) by {
                assert forall|i: int| 0 <= i < new_at implies (#[trigger] result[i]).0
                    != other by {
                    if i < index {
                        assert(result[i] == entries[i]);
                    } else {
                        assert(result[i] == entries[i + 1]);
                    }
                }
            }
            lemma_lookup_first(result, other, new_at);
        } else {
            assert forall|i: int| 0 <= i < result.len() implies (#[trigger] result[i]).0
                != other by {
                if i < index {
                    assert(result[i] == entries[i]);
                } else {
                    assert(result[i] == entries[i + 1]);
                }
            }
            lemma_lookup_absent(result, other);
        }
    }
    assert(entry_map(result) =~= entry_map(entries).remove(key));
}

/// The JSON value that a text holds, if it does.
pub open spec fn json_of(text: Seq<char>) -> Option<JsonView> {
    match parsed_value(text) {
        Some(value) => Some(value_content(value)),
        None => None,
    }
}

/// Reads a text as JSON.
pub fn parse(text: &str) -> (result: Option<Json>)
    ensures
        match result {
            Some(value) => json_of(text@) == Some(value.view()) && value.view().wf(),
            None => json_of(text@) is None,
        },
{
    match read_value(text) {
        Ok(value) => Some(from_value(value)),
        Err(_) => None,
    }
}

/// The text that a JSON value is printed as, over several lines.
pub open spec fn text_of_json(content: JsonView) -> Option<Seq<char>> {
    printed_value(content_value(content))
}

/// Prints a value over several lines.
pub fn print(content: Json) -> (result: Option<String>)
    ensures
        match result {
            Some(text) => text_of_json(content.view()) == Some(text@),
            None => text_of_json(content.view()) is None,
        },
{
    match print_value(&to_value(content)) {
        Ok(text) => Some(text),
        Err(_) => None,
    }
}

/// The text that a JSON value is displayed as, in one line.
pub open spec fn display_of_json(content: JsonView) -> Seq<char> {
    displayed_value(content_value(content))
}

/// Displays a value in one line.
pub fn display(content: &Json) -> (result: String)
    ensures
        result@ == display_of_json(content.view()),
{
    display_value(&to_value(content.duplicate()))
}

/// `Clone` of a `serde_json::Number` gives an equal number.
pub assume_specification[ <serde_json::Number as Clone>::clone ](
    number: &serde_json::Number,
) -> (result: serde_json::Number)
    ensures
        result == *number,
;

/// Where the first entry with the key stands, if there is one.
pub fn position(entries: &Vec<(String, Json)>, key: &str) -> (result: Option<usize>)
    ensures
        match result {
            Some(index) => {
                &&& is_first_entry(entries_view(entries@), key@, index as int)
                &&& lookup(entries_view(entries@), key@) == Some(entries@[index as int].1.view())
            },
            None => {
                &&& lookup(entries_view(entries@), key@) is None
                &&& forall|i: int| 0 <= i < entries@.len() ==> (#[trigger] entries@[i]).0@ != key@
            },
        },
{
    let ghost shown = entries_view(entries@);
    let mut index: usize = 0;
    while index < entries.len()
        invariant
            index <= entries@.len(),
            shown == entries_view(entries@),
            forall|i: int| 0 <= i < index ==> (#[trigger] shown[i]).0 != key@,
        decreases entries@.len() - index,
    {
        if same_text(entries[index].0.as_str(), key) {
            proof {
                lemma_lookup_first(shown, key@, index as int);
            }
            return Some(index);
        }
        index = index + 1;
    }
    proof {
        lemma_lookup_absent(shown, key@);
        assert forall|i: int| 0 <= i < entries@.len() implies (#[trigger] entries@[i]).0@
            != key@ by {
            assert(shown[i].0 != key@);
        }
    }
    None
}

/// The value under `key`, where there is one.
pub fn get<'a>(entries: &'a Vec<(String, Json)>, key: &str) -> (result: Option<&'a Json>)
    ensures
        match result {
            Some(value) => lookup(entries_view(entries@), key@) == Some(value.view()),
            None => lookup(entries_view(entries@), key@) is None,
        },
{
    match position(entries, key) {
        Some(index) => Some(&entries[index].1),
        None => None,
    }
}

/// Puts `value` under `key`.
pub fn set(entries: &mut Vec<(String, Json)>, key: &str, value: Json)
    ensures
        with_entry(
            entries_view(old(entries)@),
            key@,
            value.view(),
            entries_view(final(entries)@),
        ),
        entry_map(entries_view(final(entries)@)) == entry_map(entries_view(old(entries)@)).insert(
            key@,
            value.view(),
        ),
        distinct_keys(entries_view(old(entries)@)) ==> distinct_keys(entries_view(final(entries)@)),
{
    let ghost before = entries_view(entries@);
    let ghost shown = value.view();
    match position(entries, key) {
        Some(index) => {
            let name = entries[index].0.clone();
            entries.set(index, (name, value));
            proof {
                assert(entries_view(entries@) =~= before.update(
                    index as int,
                    (before[index as int].0, shown),
                ));
                assert(is_first_entry(before, key@, index as int));
            }
        },
        None => {
            entries.push((key.to_owned(), value));
            proof {
                assert(entries_view(entries@).drop_last() =~= before);
            }
        },
    }
    proof {
        lemma_with_entry(before, key@, shown, entries_view(entries@));
    }
}

/// Takes away what is under `key`, and returns it.
pub fn remove(entries: &mut Vec<(String, Json)>, key: &str) -> (result: Option<Json>)
    requires
        distinct_keys(entries_view(old(entries)@)),
    ensures
        match result {
            Some(value) => lookup(entries_view(old(entries)@), key@) == Some(value.view()),
            None => lookup(entries_view(old(entries)@), key@) is None && final(entries)@ == old(
                entries,
            )@,
        },
        entry_map(entries_view(final(entries)@)) == entry_map(entries_view(old(entries)@)).remove(
            key@,
        ),
        distinct_keys(entries_view(final(entries)@)),
{
    let ghost before = entries_view(entries@);
    match position(entries, key) {
        Some(index) => {
            proof {
                lemma_without_entry(before, key@, index as int);
            }
            let (_, value) = entries.remove(index);
            proof {
                assert(entries_view(entries@) =~= before.remove(index as int));
            }
            Some(value)
        },
        None => {
            proof {
                assert(entry_map(before) =~= entry_map(before).remove(key@));
            }
            None
        },
    }
}

impl Json {
    /// A copy of the value.
    pub fn duplicate(&self) -> (result: Json)
        ensures
            result.view() == self.view(),
        decreases self,
    {
        match self {
            Json::Null => Json::Null,
            Json::Bool(value) => Json::Bool(*value),
            Json::Number(number) => Json::Number(number.clone()),
            Json::Text(text) => Json::Text(text.clone()),
            Json::Array(items) => {
                let copies = copy_items(items);
                proof {
                    lemma_array_view(copies);
                    lemma_array_view(*items);
                }
                Json::Array(copies)
            },
            Json::Object(entries) => {
                let copies = copy_entries(entries);
                proof {
                    lemma_object_view(copies);
                    lemma_object_view(*entries);
                }
                Json::Object(copies)
            },
        }
    }
}

/// A copy of the items of an array.
pub fn copy_items(items: &Vec<Json>) -> (result: Vec<Json>)
    ensures
        items_view(result@) == items_view(items@),
    decreases items,
{
    let mut copies: Vec<Json> = Vec::new();
    let mut index: usize = 0;
    while index < items.len()
        invariant
            index <= items@.len(),
            items_view(copies@) == items_view(items@).take(index as int),
        decreases items@.len() - index,
    {
        let ghost before = copies@;
        let copy = items[index].duplicate();
        copies.push(copy);
        index = index + 1;
        proof {
            assert(items_view(copies@) =~= items_view(before).push(copy.view()));
            assert(items_view(items@).take(index as int) =~= items_view(items@).take(
                index - 1,
            ).push(items@[index - 1].view()));
        }
    }
    proof {
        assert(items_view(items@).take(index as int) =~= items_view(items@));
    }
    copies
}

/// A copy of the entries of an object.
pub fn copy_entries(entries: &Vec<(String, Json)>) -> (result: Vec<(String, Json)>)
    ensures
        entries_view(result@) == entries_view(entries@),
    decreases entries,
{
    let mut copies: Vec<(String, Json)> = Vec::new();
    let mut index: usize = 0;
    while index < entries.len()
        invariant
            index <= entries@.len(),
            entries_view(copies@) == entries_view(entries@).take(index as int),
        decreases entries@.len() - index,
    {
        let ghost before = copies@;
        let entry = &entries[index];
        let name = entry.0.clone();
        let copy = entry.1.duplicate();
        copies.push((name, copy));
        index = index + 1;
        proof {
            assert(entries_view(copies@) =~= entries_view(before).push((name@, copy.view())));
            assert(entries_view(entries@).take(index as int) =~= entries_view(entries@).take(
                index - 1,
            ).push((entries@[index - 1].0@, entries@[index - 1].1.view())));
        }
    }
    proof {
        assert(entries_view(entries@).take(index as int) =~= entries_view(entries@));
    }
    copies
}

/// Names, as they view.
pub open spec fn names_view(names: Seq<&'static str>) -> Seq<Seq<char>> {
    names.map_values(|name: &'static str| name@)
}

/// The first key of an object that is none of the known ones.
pub open spec fn first_other_key(
    entries: Seq<(Seq<char>, JsonView)>,
    known: Seq<Seq<char>>,
) -> Option<Seq<char>>
    decreases entries.len(),
{
    if entries.len() == 0 {
        None
    } else if !known.contains(entries.first().0) {
        Some(entries.first().0)
    } else {
        first_other_key(entries.drop_first(), known)
    }
}

/// The first key of an object that is none of the known ones.
pub fn find_other_key(entries: &Vec<(String, Json)>, known: &Vec<&'static str>) -> (result: Option<
    String,
>)
    ensures
        optional_text(result) == first_other_key(entries_view(entries@), names_view(known@)),
{
    let ghost shown = entries_view(entries@);
    let mut index: usize = 0;
    proof {
        assert(shown.skip(0) == shown);
    }
    while index < entries.len()
        invariant
            shown == entries_view(entries@),
            index <= entries@.len(),
            first_other_key(shown, names_view(known@)) == first_other_key(
                shown.skip(index as int),
                names_view(known@),
            ),
        decreases entries@.len() - index,
    {
        let key = entries[index].0.as_str();
        proof {
            assert(shown.skip(index as int).first() == shown[index as int]);
            assert(shown.skip(index as int).drop_first() == shown.skip(index + 1));
        }
        let mut at: usize = 0;
        let mut found = false;
        while at < known.len() && !found
            invariant
                at <= known@.len(),
                found ==> names_view(known@).contains(key@),
                !found ==> forall|i: int| 0 <= i < at ==> names_view(known@)[i] != key@,
            decreases known@.len() - at, (if found { 0int } else { 1int }),
        {
            if same_text(known[at], key) {
                proof {
                    assert(names_view(known@)[at as int] == key@);
                }
                found = true;
            } else {
                at = at + 1;
            }
        }
        if !found {
            return Some(entries[index].0.clone());
        }
        index = index + 1;
    }
    None
}

/// Of entries with one key the first counts, and a key that no entry has is not found.
pub proof fn law_first_entry_counts(
    entries: Seq<(Seq<char>, JsonView)>,
    entry: (Seq<char>, JsonView),
    key: Seq<char>,
)
    ensures
        lookup(seq![entry] + entries, entry.0) == Some(entry.1),
        key != entry.0 ==> lookup(seq![entry] + entries, key) == lookup(entries, key),
        lookup(Seq::empty(), key) is None,
{
    let longer = seq![entry] + entries;
    assert(longer.first() == entry);
    assert(longer.drop_first() =~= entries);
}

/// Setting a key gives it the value, keeps every other key as it was, and adds an entry
/// only where there was none of the key.
pub proof fn law_set_key_has_its_value(
    entries: Seq<(Seq<char>, JsonView)>,
    key: Seq<char>,
    value: JsonView,
    after: Seq<(Seq<char>, JsonView)>,
    other: Seq<char>,
)
    requires
        with_entry(entries, key, value, after),
    ensures
        lookup(after, key) == Some(value),
        other != key ==> lookup(after, other) == lookup(entries, other),
        after.len() == entries.len() + if lookup(entries, key) is Some {
            0int
        } else {
            1int
        },
{
    lemma_with_entry(entries, key, value, after);
    let map = entry_map(after);
    assert(map == entry_map(entries).insert(key, value));
    assert(map.contains_key(key) && map[key] == value);
    if other != key {
        assert(map.contains_key(other) == entry_map(entries).contains_key(other));
        if map.contains_key(other) {
            assert(map[other] == entry_map(entries)[other]);
        }
    }
}

} // verus!
