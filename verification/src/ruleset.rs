use vstd::prelude::*;
use std::collections::BTreeMap;

verus! {

/// Whether `text` decodes as a ruleset document: a JSON object carrying
/// "filter_rules" and "regex_rules" as arrays of strings and "domain_rules"
/// as an object of booleans. What the decode accepts depends on the text
/// alone.
pub uninterp spec fn ruleset_ok(text: Seq<char>) -> bool;

/// The decoded document's exact-match rule strings, in document order.
pub uninterp spec fn ruleset_filters(text: Seq<char>) -> Seq<Seq<char>>;

/// The decoded document's pattern strings, in document order.
pub uninterp spec fn ruleset_patterns(text: Seq<char>) -> Seq<Seq<char>>;

/// The decoded document's domain entries, as a map from domain to flag.
pub uninterp spec fn ruleset_domains(text: Seq<char>) -> Map<Seq<char>, bool>;

/// Relies on serde_json::from_str and serde_json::from_value: the three
/// fields of the ruleset document are decoded from the text alone; a text
/// that is not JSON, a missing field, or a field of the wrong shape fails
/// the whole decode and nothing is returned. The domain entries come out
/// with pairwise distinct keys and carry exactly `ruleset_domains`.
#[verifier::external_body]
pub fn decode_ruleset(text: &str) -> (r: Option<(Vec<String>, Vec<String>, Vec<(String, bool)>)>)
    ensures
        (r is Some <==> ruleset_ok(text@)),
        (r matches Some(t) ==> t.0.deep_view() == ruleset_filters(text@)),
        (r matches Some(t) ==> t.1.deep_view() == ruleset_patterns(text@)),
        (r matches Some(t) ==> forall|i: int, j: int|
            0 <= i < j < t.2@.len() ==> t.2@[i].0@ != t.2@[j].0@),
        (r matches Some(t) ==> forall|i: int|
            0 <= i < t.2@.len() ==> ruleset_domains(text@).contains_pair(t.2@[i].0@, t.2@[i].1)),
        (r matches Some(t) ==> forall|k: Seq<char>|
            ruleset_domains(text@).contains_key(k) ==> exists|i: int|
                0 <= i < t.2@.len() && t.2@[i].0@ == k),
{
    let mut doc: BTreeMap<String, serde_json::Value> = serde_json::from_str(text).ok()?;
    let f = serde_json::from_value::<Vec<String>>(doc.remove("filter_rules")?).ok()?;
    let p = serde_json::from_value::<Vec<String>>(doc.remove("regex_rules")?).ok()?;
    let d = serde_json::from_value::<BTreeMap<String, bool>>(doc.remove("domain_rules")?).ok()?;
    Some((f, p, d.into_iter().collect()))
}

} // verus!
