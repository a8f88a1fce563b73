use vstd::prelude::*;

verus! {

/// serde_json's JSON document type, carried through this crate as an opaque
/// value: requests serialize it, responses hand it back unchanged.
#[verifier::external_type_specification]
#[verifier::external_body]
pub struct ExValue(serde_json::Value);

/// What serde_json::from_slice returns for given bytes: the parsed document,
/// or `None` when the bytes are not one well-formed JSON document.
pub uninterp spec fn doc_of(s: Seq<u8>) -> Option<serde_json::Value>;

/// What serde_json::Value::get returns for a given document and key: the
/// member under the key when the document is an object holding one.
pub uninterp spec fn member_of(v: serde_json::Value, key: Seq<char>) -> Option<serde_json::Value>;

/// What serde_json::Value::as_array returns: the elements, in order, when
/// the document is an array.
pub uninterp spec fn array_of(v: serde_json::Value) -> Option<Seq<serde_json::Value>>;

/// What serde_json::Value::as_str returns: the text when the document is a
/// string.
pub uninterp spec fn str_of(v: serde_json::Value) -> Option<Seq<char>>;

/// What serde_json::Value::is_null returns: whether the document is `null`.
pub uninterp spec fn null_of(v: serde_json::Value) -> bool;

/// What serde_json::Value's Display renders: the compact JSON text of the
/// document.
pub uninterp spec fn text_of(v: serde_json::Value) -> Seq<char>;

/// Relies on serde_json::from_slice::<Value>: `Some` exactly when the bytes
/// form one well-formed JSON document, `None` otherwise; the result depends
/// on the bytes alone.
#[verifier::external_body]
pub fn parse_json(line: &[u8]) -> (r: Option<serde_json::Value>)
    ensures
        r == doc_of(line@),
{
    serde_json::from_slice(line).ok()
}

/// Relies on serde_json::Value::get with a string index: the member under
/// `key` when `v` is an object holding one, `None` otherwise.
#[verifier::external_body]
pub fn json_get<'a>(v: &'a serde_json::Value, key: &str) -> (r: Option<&'a serde_json::Value>)
    ensures
        match r {
            Some(m) => member_of(*v, key@) == Some(*m),
            None => member_of(*v, key@) is None,
        },
{
    v.get(key)
}

/// Relies on serde_json::Value::as_array: the element vector when `v` is an
/// array, `None` otherwise.
#[verifier::external_body]
pub fn json_as_array<'a>(v: &'a serde_json::Value) -> (r: Option<&'a Vec<serde_json::Value>>)
    ensures
        match r {
            Some(a) => array_of(*v) == Some(a@),
            None => array_of(*v) is None,
        },
{
    v.as_array()
}

/// Relies on serde_json::Value::as_str: the text when `v` is a string,
/// `None` otherwise.
#[verifier::external_body]
pub fn json_as_str<'a>(v: &'a serde_json::Value) -> (r: Option<&'a str>)
    ensures
        match r {
            Some(s) => str_of(*v) == Some(s@),
            None => str_of(*v) is None,
        },
{
    v.as_str()
}

/// Relies on serde_json::Value::is_null.
#[verifier::external_body]
pub fn json_is_null(v: &serde_json::Value) -> (r: bool)
    ensures
        r == null_of(*v),
{
    v.is_null()
}

/// Relies on serde_json::Value's derived Clone, which rebuilds the same
/// document.
#[verifier::external_body]
pub fn json_clone(v: &serde_json::Value) -> (r: serde_json::Value)
    ensures
        r == *v,
{
    v.clone()
}

/// Relies on serde_json::Value's Display: the compact JSON text of `v`.
#[verifier::external_body]
pub fn json_text(v: &serde_json::Value) -> (r: String)
    ensures
        r@ == text_of(*v),
{
    v.to_string()
}

/// Relies on serde_json::to_vec: the compact JSON bytes of `v`; serializing
/// a plain `Value` does not fail.
#[verifier::external_body]
pub fn json_to_bytes(v: &serde_json::Value) -> (r: Option<Vec<u8>>) {
    match serde_json::to_vec(v) {
        Ok(b) => Some(b),
        Err(_) => None,
    }
}

} // verus!
