//! What the engine asks of `serde_json`: whether a manifest is JSON at all,
//! and how a manifest looks when written out for people to read.

use vstd::prelude::*;

verus! {

/// The indented, multi-line rendering of the JSON value that the bytes spell,
/// or `None` where `serde_json` does not read the bytes as one JSON value.
/// It reads bytes strictly: what is not UTF-8 is not JSON.
pub uninterp spec fn json_pretty(bytes: Seq<u8>) -> Option<Seq<u8>>;

/// `serde_json::from_slice` into a `Value`: the answer is whether parsing
/// succeeded, which is where `json_pretty` has a rendering to give.
#[verifier::external_body]
pub(crate) fn reads_json(content: &[u8]) -> (ok: bool)
    ensures
        ok == json_pretty(content@) is Some,
{
    serde_json::from_slice::<serde_json::Value>(content).is_ok()
}

/// `serde_json::from_slice` into a `Value`, then `serde_json::to_string_pretty`
/// of that value, as bytes. A value that cannot be rendered gives the empty
/// text.
#[verifier::external_body]
pub(crate) fn pretty_json(content: &[u8]) -> (pretty: Option<Vec<u8>>)
    ensures
        match pretty {
            Some(text) => json_pretty(content@) == Some(text@),
            None => json_pretty(content@) is None,
        },
{
    match serde_json::from_slice::<serde_json::Value>(content) {
        Ok(value) => Some(serde_json::to_string_pretty(&value).unwrap_or_default().into_bytes()),
        Err(_) => None,
    }
}

} // verus!
