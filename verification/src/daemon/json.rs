//! JSON text, made by `serde_json`.

use vstd::prelude::*;
use crate::daemon::report::members;

verus! {

/// The error type of `serde_json`. Nothing is known of what it holds.
#[verifier::external_type_specification]
#[verifier::external_body]
pub struct ExJsonError(serde_json::Error);

/// The text that `serde_json::to_string` gives for the JSON object that
/// these members were entered into one after the other, each value a JSON
/// string. The object holds one member for each key, the one entered last,
/// and the text lists them as the object does, not as they were entered.
pub uninterp spec fn json_object(fields: Seq<(Seq<char>, Seq<char>)>) -> Seq<char>;

/// Writes a JSON object whose values are all strings.
///
/// Calls `serde_json::to_string` on a `serde_json::Value::Object` that the
/// members were entered into with `serde_json::Map::insert`, each value as
/// a `serde_json::Value::String`. Not proved: that the call gives a text,
/// and that the text depends on the members alone. It gives one because
/// the keys and values are strings and the text is written into a byte
/// vector: the only errors on that way are those of the writer, and a byte
/// vector reports none.
#[verifier::external_body]
pub(crate) fn render_object(fields: &Vec<(String, String)>) -> (text: Result<
    String,
    serde_json::Error,
>)
    ensures
        text is Ok,
        text matches Ok(written) ==> written@ == json_object(members(fields@)),
{
    let mut object = serde_json::Map::new();
    for (key, value) in fields.iter() {
        object.insert(key.clone(), serde_json::Value::String(value.clone()));
    }
    serde_json::to_string(&serde_json::Value::Object(object))
}

} // verus!
