//! Trusted access to YAML text through `serde_yaml`.

use vstd::prelude::*;

use crate::bytes::views;

verus! {

/// The keys of the mapping held by `member` of the top-level YAML mapping of
/// `content`, each rendered as the key string's bytes (a non-string key is
/// rendered empty): `None` when `content` is not a YAML mapping or the member
/// holds a value of another kind; `Some(None)` when the member is absent or
/// null; otherwise the keys in document order.
pub uninterp spec fn yaml_member_keys(content: Seq<u8>, member: Seq<char>) -> Option<
    Option<Seq<Seq<u8>>>,
>;

/// Relies on `serde_yaml::from_slice` and `serde_yaml::Mapping`: parses
/// `content` and hands out the keys of the mapping under `member`, in document
/// order (`serde_yaml`'s mapping keeps insertion order).
#[verifier::external_body]
pub fn yaml_mapping_member_keys(content: &Vec<u8>, member: &str) -> (r: Option<
    Option<Vec<Vec<u8>>>,
>)
    ensures
        match r {
            None => yaml_member_keys(content@, member@) is None,
            Some(None) => (yaml_member_keys(content@, member@) matches Some(o) && o is None),
            Some(Some(ks)) => (yaml_member_keys(content@, member@) matches Some(Some(m))
                && views(ks@) == m),
        },
{
    let doc: serde_yaml::Value = match serde_yaml::from_slice(content.as_slice()) {
        Ok(d) => d, Err(_) => return None,
    };
    let map = match doc { serde_yaml::Value::Mapping(m) => m, _ => return None };
    match map.get(member) {
        None | Some(serde_yaml::Value::Null) => Some(None),
        Some(serde_yaml::Value::Mapping(m)) => Some(
            Some(m.keys().map(|k| k.as_str().unwrap_or("").as_bytes().to_vec()).collect()),
        ),
        Some(_) => None,
    }
}

} // verus!
