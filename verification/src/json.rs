//! JSON arrays, as the `serde_json` crate reads them.
//!
//! Nothing here is proved: the contract names what the crate returns.
use vstd::prelude::*;

verus! {

/// `Error` of the `serde_json` crate, carried as it comes.
#[verifier::external_type_specification]
#[verifier::external_body]
pub struct ExJsonError(serde_json::Error);

/// One element of a JSON array.
#[derive(Clone, Debug, PartialEq, Eq)]
pub enum JsonItem {
    Null,
    Bool(bool),
    /// A number, in the digits that JSON writes it with.
    Number(String),
    /// A string, without quotes and escapes.
    Text(String),
    /// An array or an object, as compact JSON text.
    Composite(String),
}

/// A `JsonItem` as plain sequences.
pub enum JsonItemView {
    Null,
    Bool(bool),
    Number(Seq<char>),
    Text(Seq<char>),
    Composite(Seq<char>),
}

impl View for JsonItem {
    type V = JsonItemView;

    open spec fn view(&self) -> JsonItemView {
        match *self {
            JsonItem::Null => JsonItemView::Null,
            JsonItem::Bool(b) => JsonItemView::Bool(b),
            JsonItem::Number(t) => JsonItemView::Number(t@),
            JsonItem::Text(t) => JsonItemView::Text(t@),
            JsonItem::Composite(t) => JsonItemView::Composite(t@),
        }
    }
}

/// The views of a vector of items.
pub open spec fn items_view(items: Seq<JsonItem>) -> Seq<JsonItemView> {
    Seq::new(items.len(), |i: int| items[i]@)
}

/// The elements of the JSON array that `text` spells, if it spells one.
pub uninterp spec fn json_array(text: Seq<char>) -> Option<Seq<JsonItemView>>;

/// `serde_json::from_reader` to a vector of `Value`, on the bytes of
/// `text`; each value is then copied into a `JsonItem`, a number, an array
/// and an object through their `to_string`. The contract names the elements
/// and says nothing of the error.
#[verifier::external_body]
pub(crate) fn read_array(text: &str) -> (r: Result<Vec<JsonItem>, serde_json::Error>)
    ensures
        match r {
            Ok(items) => json_array(text@) == Some(items_view(items@)),
            Err(_) => json_array(text@) is None,
        },
{
    let values: Vec<serde_json::Value> = serde_json::from_reader(text.as_bytes())?;
    Ok(values.into_iter().map(|v| match v {
        serde_json::Value::Null => JsonItem::Null,
        serde_json::Value::Bool(b) => JsonItem::Bool(b),
        serde_json::Value::Number(n) => JsonItem::Number(n.to_string()),
        serde_json::Value::String(s) => JsonItem::Text(s),
        serde_json::Value::Array(_) => JsonItem::Composite(v.to_string()),
        serde_json::Value::Object(_) => JsonItem::Composite(v.to_string()),
    }).collect())
}

} // verus!
