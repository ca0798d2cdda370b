//! JSON text and values of `serde_json`, brought into the library's own values.

use crate::json::{views, Json, JsonView, Object};
use vstd::prelude::*;

verus! {

/// Declares [`serde_json::Value`].
#[verifier::external_type_specification]
#[verifier::external_body]
pub struct ExValue(serde_json::Value);

/// Declares [`serde_json::Error`].
#[verifier::external_type_specification]
#[verifier::external_body]
pub struct ExParseError(serde_json::Error);

/// What a [`serde_json::Value`] holds. A number is the text that it prints as.
pub uninterp spec fn contents(value: serde_json::Value) -> JsonView;

/// The value that [`serde_json::from_str`] reads from a text, if the text is JSON.
pub uninterp spec fn read_text(text: Seq<char>) -> Option<JsonView>;

/// A [`serde_json::Value`] laid open by one level.
enum Layer<'a> {
    Null,
    Bool(bool),
    Number(String),
    String(&'a String),
    Array(&'a Vec<serde_json::Value>),
    Object(Vec<(&'a String, &'a serde_json::Value)>),
}

/// The map that a sequence of entries makes up when they are put in one after the other.
spec fn entries_contents(entries: Seq<(&String, &serde_json::Value)>) -> Map<Seq<char>, JsonView>
    decreases entries.len(),
{
    if entries.len() == 0 {
        Map::empty()
    } else {
        entries_contents(entries.drop_last()).insert(entries.last().0@, contents(*entries.last().1))
    }
}

/// What the value holds of which this is the outermost level.
spec fn layer_contents(layer: Layer) -> JsonView {
    match layer {
        Layer::Null => JsonView::Null,
        Layer::Bool(b) => JsonView::Bool(b),
        Layer::Number(numeral) => JsonView::Number(numeral@),
        Layer::String(text) => JsonView::String(text@),
        Layer::Array(items) => JsonView::Array(
            items@.map_values(|item: serde_json::Value| contents(item)),
        ),
        Layer::Object(entries) => JsonView::Object(entries_contents(entries@)),
    }
}

/// Tells the variants of [`serde_json::Value`] apart. A number is handed out as the text that
/// [`serde_json::Number`] prints as, an object as its entries in the order in which
/// [`serde_json::Map::iter`] gives them; the contract claims that this is what the value holds,
/// and that no key of an object comes twice.
#[verifier::external_body]
fn layer_of(value: &serde_json::Value) -> (r: Layer<'_>)
    ensures
        layer_contents(r) == contents(*value),
        r matches Layer::Object(entries) ==> forall|i: int, j: int|
            0 <= i < j < entries@.len() ==> (#[trigger] entries@[i]).0@ != (
            #[trigger] entries@[j]).0@,
{
    match value {
        serde_json::Value::Null => Layer::Null,
        serde_json::Value::Bool(b) => Layer::Bool(*b),
        serde_json::Value::Number(number) => Layer::Number(number.to_string()),
        serde_json::Value::String(text) => Layer::String(text),
        serde_json::Value::Array(items) => Layer::Array(items),
        serde_json::Value::Object(members) => Layer::Object(members.iter().collect()),
    }
}

/// Calls [`serde_json::from_str`] for a [`serde_json::Value`]; the contract names what it reads.
#[verifier::external_body]
fn value_from_text(text: &str) -> (r: Result<serde_json::Value, serde_json::Error>)
    ensures
        r is Ok <==> read_text(text@) is Some,
        r is Ok ==> contents(r->Ok_0) == read_text(text@)->0,
{
    serde_json::from_str(text)
}

/// Entries with different keys make up the map that takes each key to its value.
proof fn lemma_entries_contents(entries: Seq<(&String, &serde_json::Value)>)
    requires
        forall|i: int, j: int|
            0 <= i < j < entries.len() ==> (#[trigger] entries[i]).0@ != (
            #[trigger] entries[j]).0@,
    ensures
        entries_contents(entries).dom().finite(),
        forall|i: int|
            0 <= i < entries.len() ==> {
                &&& entries_contents(entries).contains_key((#[trigger] entries[i]).0@)
                &&& entries_contents(entries)[entries[i].0@] == contents(*entries[i].1)
            },
    decreases entries.len(),
{
    if entries.len() > 0 {
        let rest = entries.drop_last();
        assert forall|i: int, j: int| 0 <= i < j < rest.len() implies (
        #[trigger] rest[i]).0@ != (#[trigger] rest[j]).0@ by {
            assert(entries[i].0@ != entries[j].0@);
        }
        lemma_entries_contents(rest);
        assert forall|i: int| 0 <= i < entries.len() implies {
            &&& entries_contents(entries).contains_key((#[trigger] entries[i]).0@)
            &&& entries_contents(entries)[entries[i].0@] == contents(*entries[i].1)
        } by {
            if i < rest.len() {
                assert(rest[i] == entries[i]);
                assert(entries[i].0@ != entries[entries.len() - 1].0@);
            }
        }
    }
}

/// The library's copy of a [`serde_json::Value`].
pub fn from_value(value: &serde_json::Value) -> (r: Json)
    ensures
        r@ == contents(*value),
    decreases contents(*value),
{
    let ghost whole = contents(*value);
    match layer_of(value) {
        Layer::Null => Json::Null,
        Layer::Bool(b) => Json::Bool(b),
        Layer::Number(numeral) => Json::Number(numeral),
        Layer::String(text) => Json::String(text.clone()),
        Layer::Array(values) => {
            let ghost all = values@.map_values(|item: serde_json::Value| contents(item));
            assert(whole == JsonView::Array(all));
            let mut items: Vec<Json> = Vec::new();
            let n: usize = values.len();
            let mut i: usize = 0;
            while i < n
                invariant
                    i <= n,
                    n == values@.len(),
                    all == values@.map_values(|item: serde_json::Value| contents(item)),
                    whole == JsonView::Array(all),
                    whole == contents(*value),
                    items@.len() == i,
                    forall|j: int| 0 <= j < i ==> items@[j]@ == #[trigger] all[j],
                decreases n - i,
            {
                assert(all[i as int] == contents(values@[i as int]));
                assert(decreases_to!(whole => all[i as int])) by {
                    assert(decreases_to!(whole => whole->Array_0));
                    assert(decreases_to!(all => all[i as int]));
                }
                items.push(from_value(&values[i]));
                i = i + 1;
            }
            assert forall|j: int| 0 <= j < n implies views(items@)[j] == all[j] by {
                assert(items@[j]@ == all[j]);
            }
            assert(views(items@) =~= all);
            Json::Array(items)
        },
        Layer::Object(entries) => {
            let ghost all = entries_contents(entries@);
            assert(whole == JsonView::Object(all));
            let mut object = Object::new();
            let n: usize = entries.len();
            let mut i: usize = 0;
            while i < n
                invariant
                    i <= n,
                    n == entries@.len(),
                    all == entries_contents(entries@),
                    whole == JsonView::Object(all),
                    whole == contents(*value),
                    forall|x: int, y: int|
                        0 <= x < y < entries@.len() ==> (#[trigger] entries@[x]).0@ != (
                        #[trigger] entries@[y]).0@,
                    object@ == entries_contents(entries@.take(i as int)),
                decreases n - i,
            {
                let entry = entries[i];
                proof {
                    lemma_entries_contents(entries@);
                    assert(entry == entries@[i as int]);
                    assert(all[entry.0@] == contents(*entry.1));
                    assert(decreases_to!(whole => whole->Object_0));
                    assert(decreases_to!(all => all[entry.0@]));
                }
                object.insert(entry.0.clone(), from_value(entry.1));
                assert(entries@.take(i + 1).drop_last() =~= entries@.take(i as int));
                i = i + 1;
            }
            assert(entries@.take(n as int) =~= entries@);
            Json::Object(object)
        },
    }
}

/// What a text reads as; a text that is not JSON reads as null.
pub open spec fn read_or_null(read: Option<JsonView>) -> JsonView {
    match read {
        Some(json) => json,
        None => JsonView::Null,
    }
}

/// The JSON that `text` holds, or null where it holds none.
pub fn document(text: &str) -> (r: Json)
    ensures
        r@ == read_or_null(read_text(text@)),
{
    match value_from_text(text) {
        Ok(value) => from_value(&value),
        Err(_) => Json::Null,
    }
}

} // verus!
