use vstd::prelude::*;

verus! {

/// The unsigned integer serde_json reads at `key` of the JSON object in
/// `json`, or `None` when `json` is not valid JSON, the key is absent, or its
/// value is not an unsigned integer that fits a `u64`.
pub uninterp spec fn json_u64_field(json: Seq<char>, key: Seq<char>) -> Option<u64>;

/// `serde_json::from_str::<Value>(json)` followed by `get(key)` and
/// `as_u64()`.
#[verifier::external_body]
fn read_json_u64_field(json: &str, key: &str) -> (r: Option<u64>)
    ensures
        r == json_u64_field(json@, key@),
{
    match serde_json::from_str::<serde_json::Value>(json) {
        Ok(value) => value.get(key).and_then(serde_json::Value::as_u64),
        Err(_) => None,
    }
}

/// The `eventSequence` of a lifecycle event payload.
pub fn event_sequence_from_json(json: &str) -> (sequence: Option<u64>)
    ensures
        sequence == json_u64_field(json@, "eventSequence"@),
{
    read_json_u64_field(json, "eventSequence")
}

/// An event is stale when the bootstrap event carried a sequence number and
/// the event's own sequence number is not above it.
pub fn sequence_is_not_newer(event_sequence: Option<u64>, bootstrap_event_sequence: Option<u64>) -> (stale: bool)
    ensures
        stale == match (event_sequence, bootstrap_event_sequence) {
            (Some(event), Some(bootstrap)) => event <= bootstrap,
            _ => false,
        },
{
    match (event_sequence, bootstrap_event_sequence) {
        (Some(event), Some(bootstrap)) => event <= bootstrap,
        _ => false,
    }
}

/// Whether a live event payload is already covered by the bootstrap event
/// sent first on the stream; without a bootstrap sequence nothing is.
pub fn event_is_not_newer(json: &str, bootstrap_event_sequence: Option<u64>) -> (stale: bool)
    ensures
        stale == match bootstrap_event_sequence {
            None => false,
            Some(bootstrap) => match json_u64_field(json@, "eventSequence"@) {
                Some(event) => event <= bootstrap,
                None => false,
            },
        },
{
    if bootstrap_event_sequence.is_none() {
        return false;
    }
    sequence_is_not_newer(event_sequence_from_json(json), bootstrap_event_sequence)
}

} // verus!
