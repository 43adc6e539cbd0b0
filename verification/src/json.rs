//! Reading JSON text with `serde_json`.
use vstd::prelude::*;

verus! {

/// What `serde_json::from_str::<serde_json::Value>` makes of `s`: `Ok` with the
/// compact text of the parsed value, or `Err` with the parser's error message.
pub uninterp spec fn json_reading(s: Seq<char>) -> Result<Seq<char>, Seq<char>>;

/// Parses `s` as a JSON value with `serde_json::from_str`; on success returns
/// the value written back in compact form (`Value::to_string`), on failure the
/// error's message. Both outcomes are named by `json_reading`, not restated.
#[verifier::external_body]
pub(crate) fn parse_json(s: &str) -> (r: Result<String, String>)
    ensures
        match r {
            Ok(t) => json_reading(s@) == Ok::<Seq<char>, Seq<char>>(t@),
            Err(e) => json_reading(s@) == Err::<Seq<char>, Seq<char>>(e@),
        },
{
    match serde_json::from_str::<serde_json::Value>(s) {
        Ok(v) => Ok(v.to_string()),
        Err(e) => Err(e.to_string()),
    }
}

} // verus!
