//! The one boundary to the outside JSON decoder. Everything after the
//! decode — schema checks, document building, coercion — is verified; only
//! the decode of raw text into a `JsonVal` tree is taken on trust.

use serde_json::Value as JsValue;
use vstd::prelude::*;

use crate::json::jview;
use crate::json::JsonNum;
use crate::json::JsonVal;
use crate::json::JsonView;

verus! {

/// What the JSON decoder gives on a text: the view of the decoded value
/// tree, or the decoder's message. A name only: nothing here states which
/// tree a given text denotes.
pub uninterp spec fn json_doc_of(s: Seq<char>) -> Result<JsonView, Seq<char>>;

/// The view of a decode result.
pub open spec fn json_result_view(r: Result<JsonVal, String>) -> Result<JsonView, Seq<char>> {
    match r {
        Ok(v) => Ok(jview(v)),
        Err(m) => Err(m@),
    }
}

#[verifier::external_type_specification]
#[verifier::external_body]
pub struct ExJsonValue(serde_json::Value);

/// Relies on serde_json::Value and serde_json::Number: each variant of a
/// decoded tree is carried to the matching `JsonVal` variant, a number by
/// its 64-bit class (`as_u64`, else `as_i64`, else not integer-valued and
/// kept as its own compact JSON text, `Value`'s `Display`).
#[verifier::external_body]
fn mirror_value(v: &JsValue) -> JsonVal {
    match v {
        JsValue::Null => JsonVal::Null,
        JsValue::Bool(b) => JsonVal::Bool(*b),
        JsValue::Number(n) => JsonVal::Num(match (n.as_u64(), n.as_i64()) {
            (Some(u), _) => JsonNum::Uint(u),
            (None, Some(i)) => JsonNum::Int(i),
            (None, None) => JsonNum::Float(v.to_string()),
        }),
        JsValue::String(s) => JsonVal::Str(s.clone()),
        JsValue::Array(a) => JsonVal::Arr(a.iter().map(mirror_value).collect()),
        JsValue::Object(m) => JsonVal::Obj(
            m.iter().map(|(k, x)| (k.clone(), mirror_value(x))).collect(),
        ),
    }
}

/// Relies on serde_json::from_str::<serde_json::Value>: decodes JSON text
/// into a value tree, which `mirror_value` carries over variant for
/// variant; a decode failure yields the decoder's message.
#[verifier::external_body]
pub(crate) fn parse_json_text(s: &str) -> (r: Result<JsonVal, String>)
    ensures
        json_result_view(r) == json_doc_of(s@),
{
    match serde_json::from_str::<serde_json::Value>(s) {
        Ok(v) => Ok(mirror_value(&v)),
        Err(e) => Err(e.to_string()),
    }
}

} // verus!
