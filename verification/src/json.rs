//! JSON texts, as the `serde_json` crate reads them.

use vstd::prelude::*;

use crate::text::texts_of;

verus! {

/// The texts of a list of strings that may be missing.
pub open spec fn optional_texts(list: Option<Vec<String>>) -> Option<Seq<Seq<char>>> {
    match list {
        Some(list) => Some(texts_of(list@)),
        None => None,
    }
}

/// A text that may be missing.
pub open spec fn optional_text(text: Option<String>) -> Option<Seq<char>> {
    match text {
        Some(text) => Some(text@),
        None => None,
    }
}

/// The list of strings that a JSON text spells; nothing if it does not spell
/// one.
pub uninterp spec fn json_string_list(text: Seq<char>) -> Option<Seq<Seq<char>>>;

/// `serde_json::from_str` for `Vec<String>`: the strings of a JSON array of
/// strings, in order. A text that is anything else is an error, which is
/// dropped here.
#[verifier::external_body]
pub(crate) fn parse_string_list(text: &str) -> (list: Option<Vec<String>>)
    ensures
        optional_texts(list) == json_string_list(text@),
{
    serde_json::from_str::<Vec<String>>(text).ok()
}

/// The elements of the JSON array that a text spells, each as a JSON text of
/// its own; nothing if it does not spell an array.
pub uninterp spec fn json_elements(text: Seq<char>) -> Option<Seq<Seq<char>>>;

/// `serde_json::from_str` for `Vec<Value>`: the elements of a JSON array, in
/// order, each written by `Value`'s `to_string`. A text that is anything else
/// is an error, which is dropped here.
#[verifier::external_body]
pub(crate) fn parse_elements(text: &str) -> (elements: Option<Vec<String>>)
    ensures
        optional_texts(elements) == json_elements(text@),
{
    let elements = serde_json::from_str::<Vec<serde_json::Value>>(text).ok()?;
    Some(elements.iter().map(|element| element.to_string()).collect())
}

/// The string that stands under a key of the JSON object that a text spells;
/// nothing if there is none.
pub uninterp spec fn json_member(text: Seq<char>, key: Seq<char>) -> Option<Seq<char>>;

/// `serde_json::from_str` for `Value`, then `Value::get` and `Value::as_str`:
/// the string under a key of a JSON object. There is none if the text is not
/// JSON, not an object, has no such key, or has something else than a string
/// under it.
#[verifier::external_body]
pub(crate) fn parse_member(text: &str, key: &str) -> (member: Option<String>)
    ensures
        optional_text(member) == json_member(text@, key@),
{
    let value = serde_json::from_str::<serde_json::Value>(text).ok()?;
    value.get(key)?.as_str().map(str::to_string)
}

/// Texts with a comma between any two.
pub open spec fn comma_separated(items: Seq<Seq<char>>) -> Seq<char>
    decreases items.len(),
{
    if items.len() == 0 {
        Seq::empty()
    } else if items.len() == 1 {
        items[0]
    } else {
        comma_separated(items.drop_last()) + ","@ + items.last()
    }
}

/// The JSON array of some JSON texts.
pub open spec fn json_array(items: Seq<Seq<char>>) -> Seq<char> {
    "["@ + comma_separated(items) + "]"@
}

/// An array begins and ends with its brackets; one more item goes before the
/// closing bracket, with a comma before it unless it is the first.
pub proof fn lemma_arrays_grow_item_by_item(items: Seq<Seq<char>>, item: Seq<char>)
    ensures
        json_array(Seq::empty()) == seq!['[', ']'],
        json_array(seq![item]) == seq!['['] + item + seq![']'],
        items.len() > 0 ==> json_array(items.push(item)) == json_array(items).drop_last() + seq![',']
            + item + seq![']'],
{
    reveal_strlit("[");
    reveal_strlit("]");
    reveal_strlit(",");
    assert(json_array(Seq::empty()) =~= seq!['[', ']']);
    assert(json_array(seq![item]) =~= seq!['['] + item + seq![']']);
    if items.len() > 0 {
        assert(items.push(item).drop_last() =~= items);
        assert(json_array(items.push(item)) =~= json_array(items).drop_last() + seq![','] + item
            + seq![']']);
    }
}

} // verus!
