//! What the dispatcher reads of a JSON value. The values themselves are kept
//! by `serde_json`; nothing here looks inside one but through its accessors.

use serde_json::Value;
use vstd::prelude::*;

verus! {

#[verifier::external_type_specification]
#[verifier::external_body]
pub struct ExValue(serde_json::Value);

/// The member that the JSON object `value` keeps under `key`.
pub uninterp spec fn json_member(value: Value, key: Seq<char>) -> Option<Value>;

/// The text of `value` where it is a JSON string.
pub uninterp spec fn json_text(value: Value) -> Option<Seq<char>>;

/// The number that `value` holds where it is a JSON integer within `i64`.
pub uninterp spec fn json_i64(value: Value) -> Option<i64>;

/// `serde_json::Value::get` with a string for its index. It looks the key up
/// in a JSON object, and finds nothing in a value of any other kind. The
/// contract names what was found `json_member` and claims no more than that
/// the same value and key give the same member.
#[verifier::external_body]
pub(crate) fn member<'a>(value: &'a Value, key: &str) -> (found: Option<&'a Value>)
    ensures
        match found {
            Some(member) => json_member(*value, key@) == Some(*member),
            None => json_member(*value, key@) is None,
        },
{
    value.get(key)
}

/// `serde_json::Value::as_str`: the text of a JSON string, and nothing for a
/// value of any other kind. The contract names the text `json_text`.
pub assume_specification<'a>[ Value::as_str ](value: &'a Value) -> (text: Option<&'a str>)
    ensures
        match text {
            Some(text) => json_text(*value) == Some(text@),
            None => json_text(*value) is None,
        },
;

/// `serde_json::Value::as_i64`: the integer of a JSON number that is one and
/// fits in `i64`, and nothing for any other value. The contract names the
/// integer `json_i64`.
pub assume_specification[ Value::as_i64 ](value: &Value) -> (number: Option<i64>)
    ensures
        number == json_i64(*value),
;

} // verus!
