use crate::text::{trimmed, trimmed_equals};
use vstd::prelude::*;

verus! {

#[verifier::external_type_specification]
#[verifier::external_body]
pub struct ExJsonError(serde_json::Error);

/// What parsing `data` with `serde_json::from_str` into a `Value` and reading
/// `value[outer][index][middle][inner]` with `serde_json`'s indexing and
/// `Value::as_str` gives: `None` when `data` is not JSON, `Some(None)` when
/// that place is missing or holds no string, and `Some(Some(text))` otherwise.
pub uninterp spec fn json_string_at(
    data: Seq<char>,
    outer: Seq<char>,
    index: usize,
    middle: Seq<char>,
    inner: Seq<char>,
) -> Option<Option<Seq<char>>>;

/// Calls `serde_json::from_str` on `data`, indexes the value with the given
/// keys and position (`serde_json`'s `Index` gives `Null` for a missing place
/// and never panics) and reads the place with `Value::as_str`. Claimed: the
/// result is the named one, an error exactly when `data` is not JSON. Not
/// claimed: which texts are JSON and what they hold.
#[verifier::external_body]
fn read_json_string(
    data: &str,
    outer: &str,
    index: usize,
    middle: &str,
    inner: &str,
) -> (r: Result<Option<String>, serde_json::Error>)
    ensures
        match r {
            Ok(Some(t)) => json_string_at(data@, outer@, index, middle@, inner@) == Some(Some(t@)),
            Ok(None) => json_string_at(data@, outer@, index, middle@, inner@) == Some(
                None::<Seq<char>>,
            ),
            Err(_) => json_string_at(data@, outer@, index, middle@, inner@) is None,
        },
{
    match serde_json::from_str::<serde_json::Value>(data) {
        Ok(v) => Ok(v[outer][index][middle][inner].as_str().map(str::to_owned)),
        Err(e) => Err(e),
    }
}

/// The text of a streamed completion event: the string at
/// `choices[0].delta.content` of its JSON data.
pub open spec fn delta_text_of(data: Seq<char>) -> Option<Option<Seq<char>>> {
    json_string_at(data, "choices"@, 0, "delta"@, "content"@)
}

/// An event of the reply stream that could not be read.
pub enum EventError {
    /// The event's data is not JSON.
    Json(serde_json::Error),
}

/// The data that marks the end of a reply stream, white space aside.
pub open spec fn done_marker() -> Seq<char> {
    "[DONE]"@
}

/// The text of one event of a streamed reply, from the event's data: the end
/// marker `[DONE]` and an event without text give the empty text; data that
/// is not JSON is an error.
pub fn event_text(data: &str) -> (r: Result<String, EventError>)
    ensures
        trimmed(data@) == done_marker() ==> (r matches Ok(t) && t@.len() == 0),
        trimmed(data@) != done_marker() ==> match delta_text_of(data@) {
            None => r is Err,
            Some(None) => (r matches Ok(t) && t@.len() == 0),
            Some(Some(text)) => (r matches Ok(t) && t@ == text),
        },
{
    if trimmed_equals(data, "[DONE]") {
        return Ok(String::new());
    }
    match read_json_string(data, "choices", 0, "delta", "content") {
        Ok(Some(text)) => Ok(text),
        Ok(None) => Ok(String::new()),
        Err(e) => Err(EventError::Json(e)),
    }
}

} // verus!
