//! JSON documents parsed by `serde_json`, and what the response decoders
//! read in them: the value a JSON pointer (`/result/usage`) reaches, as a
//! plain value.

use serde_json::Value;
use vstd::prelude::*;

verus! {

/// What a JSON pointer reaches in a document: nothing, or a value of one
/// of the JSON kinds. Numbers keep what the decoders read of them (their
/// value when they are non-negative integers that fit in a `u64`), arrays
/// their length.
#[derive(Debug, Clone)]
pub enum JsonLeaf {
    Missing,
    Null,
    Bool(bool),
    Number(Option<u64>),
    Str(String),
    Array(usize),
    Object,
}

/// A [`JsonLeaf`] with its string as characters.
pub enum JsonLeafView {
    Missing,
    Null,
    Bool(bool),
    Number(Option<u64>),
    Str(Seq<char>),
    Array(usize),
    Object,
}

impl View for JsonLeaf {
    type V = JsonLeafView;

    open spec fn view(&self) -> JsonLeafView {
        match self {
            JsonLeaf::Missing => JsonLeafView::Missing,
            JsonLeaf::Null => JsonLeafView::Null,
            JsonLeaf::Bool(b) => JsonLeafView::Bool(*b),
            JsonLeaf::Number(n) => JsonLeafView::Number(*n),
            JsonLeaf::Str(s) => JsonLeafView::Str(s@),
            JsonLeaf::Array(n) => JsonLeafView::Array(*n),
            JsonLeaf::Object => JsonLeafView::Object,
        }
    }
}

/// The characters of a string leaf.
pub open spec fn leaf_str(l: JsonLeafView) -> Option<Seq<char>> {
    match l {
        JsonLeafView::Str(s) => Some(s),
        _ => None,
    }
}

/// The boolean of a boolean leaf.
pub open spec fn leaf_bool(l: JsonLeafView) -> Option<bool> {
    match l {
        JsonLeafView::Bool(b) => Some(b),
        _ => None,
    }
}

/// The non-negative integer of a number leaf, when it fits in a `u64`.
pub open spec fn leaf_u64(l: JsonLeafView) -> Option<u64> {
    match l {
        JsonLeafView::Number(n) => n,
        _ => None,
    }
}

/// A parsed JSON document and the bytes it was parsed from.
pub struct JsonDoc {
    source: Vec<u8>,
    value: Value,
}

impl View for JsonDoc {
    /// The bytes the document was parsed from.
    type V = Seq<u8>;

    closed spec fn view(&self) -> Seq<u8> {
        self.source@
    }
}

/// Whether `serde_json::from_slice::<serde_json::Value>` accepts a byte
/// string as JSON.
pub uninterp spec fn json_parses(bytes: Seq<u8>) -> bool;

/// What `serde_json::Value::pointer` reaches with `pointer` in the document
/// `serde_json::from_slice` parses from `bytes`, as a [`JsonLeafView`].
pub uninterp spec fn json_at(bytes: Seq<u8>, pointer: Seq<char>) -> JsonLeafView;

/// `serde_json::from_slice::<serde_json::Value>`: the document the bytes
/// hold, or the parser's error. Claimed: it succeeds exactly when
/// `json_parses` holds of the bytes, and the document keeps the bytes as
/// its view.
#[verifier::external_body]
pub(crate) fn parse_json(bytes: &[u8]) -> (r: Result<JsonDoc, serde_json::Error>)
    ensures
        match r {
            Ok(doc) => json_parses(bytes@) && doc@ == bytes@,
            Err(_) => !json_parses(bytes@),
        },
{
    let value = serde_json::from_slice::<Value>(bytes)?;
    Ok(JsonDoc { source: bytes.to_vec(), value })
}

impl JsonDoc {
    /// `serde_json::Value::pointer`: the value `pointer` reaches, one arm
    /// per JSON kind. Claimed: the result is `json_at` of the document's
    /// bytes and the pointer.
    #[verifier::external_body]
    pub(crate) fn at(&self, pointer: &str) -> (r: JsonLeaf)
        ensures
            r@ == json_at(self@, pointer@),
    {
        match self.value.pointer(pointer) {
            None => JsonLeaf::Missing,
            Some(Value::Null) => JsonLeaf::Null,
            Some(Value::Bool(b)) => JsonLeaf::Bool(*b),
            Some(Value::Number(n)) => JsonLeaf::Number(n.as_u64()),
            Some(Value::String(s)) => JsonLeaf::Str(s.clone()),
            Some(Value::Array(a)) => JsonLeaf::Array(a.len()),
            Some(Value::Object(_)) => JsonLeaf::Object,
        }
    }
}

} // verus!
