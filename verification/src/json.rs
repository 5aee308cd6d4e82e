//! Trusted access to JSON text through `serde_json`.
//!
//! Each query parses the whole content and reads one member. What a query
//! returns is a function of the content and the member name alone, so each
//! result carries an uninterpreted name that the callers' contracts build on.

use vstd::prelude::*;

use crate::bytes::views;

verus! {

/// The keys of the object held by `member` of the top-level JSON object of
/// `content`: `None` when `content` is not a JSON object or the member holds a
/// value of another kind; `Some(None)` when the member is absent or null;
/// otherwise the member's keys in `serde_json`'s map order.
pub uninterp spec fn json_member_keys(content: Seq<u8>, member: Seq<char>) -> Option<
    Option<Seq<Seq<u8>>>,
>;

/// The string held by `member` of the top-level JSON object of `content`:
/// `None` when `content` is not a JSON object or the member holds a value of
/// another kind; `Some(None)` when the member is absent or null.
pub uninterp spec fn json_member_str(content: Seq<u8>, member: Seq<char>) -> Option<
    Option<Seq<u8>>,
>;

/// The string held by `inner` of the object held by `outer` of the top-level
/// JSON object of `content`: `None` when the content is not a JSON object or
/// either member holds a value of the wrong kind; `Some(None)` when either
/// member is absent or null.
pub uninterp spec fn json_member_member_str(
    content: Seq<u8>,
    outer: Seq<char>,
    inner: Seq<char>,
) -> Option<Option<Seq<u8>>>;

/// Relies on `serde_json::from_slice` and `serde_json::Map`: parses `content`
/// and hands out the keys of the object under `member`. The keys of a JSON
/// object are unique by construction.
#[verifier::external_body]
pub fn json_object_member_keys(content: &Vec<u8>, member: &str) -> (r: Option<
    Option<Vec<Vec<u8>>>,
>)
    ensures
        match r {
            None => json_member_keys(content@, member@) is None,
            Some(None) => (json_member_keys(content@, member@) matches Some(o) && o is None),
            Some(Some(ks)) => (json_member_keys(content@, member@) matches Some(Some(m))
                && views(ks@) == m && m.no_duplicates()),
        },
{
    let doc: serde_json::Value = match serde_json::from_slice(content.as_slice()) {
        Ok(d) => d, Err(_) => return None,
    };
    let obj = match doc { serde_json::Value::Object(m) => m, _ => return None };
    match obj.get(member) {
        None | Some(serde_json::Value::Null) => Some(None),
        Some(serde_json::Value::Object(m)) => Some(
            Some(m.keys().map(|k| k.as_bytes().to_vec()).collect()),
        ),
        Some(_) => None,
    }
}

/// Relies on `serde_json::from_slice` and `serde_json::Map::get`: parses
/// `content` and hands out the string under `member`.
#[verifier::external_body]
pub fn json_object_member_str(content: &Vec<u8>, member: &str) -> (r: Option<Option<Vec<u8>>>)
    ensures
        match r {
            None => json_member_str(content@, member@) is None,
            Some(None) => (json_member_str(content@, member@) matches Some(o) && o is None),
            Some(Some(b)) => (json_member_str(content@, member@) matches Some(Some(s)) && b@ == s),
        },
{
    let doc: serde_json::Value = match serde_json::from_slice(content.as_slice()) {
        Ok(d) => d, Err(_) => return None,
    };
    let obj = match doc { serde_json::Value::Object(m) => m, _ => return None };
    match obj.get(member) {
        None | Some(serde_json::Value::Null) => Some(None),
        Some(serde_json::Value::String(s)) => Some(Some(s.as_bytes().to_vec())),
        Some(_) => None,
    }
}

/// Relies on `serde_json::from_slice` and `serde_json::Map::get`: parses
/// `content` and hands out the string under `inner` of the object under
/// `outer`.
#[verifier::external_body]
pub fn json_object_member_member_str(content: &Vec<u8>, outer: &str, inner: &str) -> (r: Option<
    Option<Vec<u8>>,
>)
    ensures
        match r {
            None => json_member_member_str(content@, outer@, inner@) is None,
            Some(None) => (json_member_member_str(content@, outer@, inner@) matches Some(o)
                && o is None),
            Some(Some(b)) => (json_member_member_str(content@, outer@, inner@) matches Some(
                Some(s),
            ) && b@ == s),
        },
{
    let doc: serde_json::Value = match serde_json::from_slice(content.as_slice()) {
        Ok(d) => d, Err(_) => return None,
    };
    let obj = match doc { serde_json::Value::Object(m) => m, _ => return None };
    let outer_obj = match obj.get(outer) {
        None | Some(serde_json::Value::Null) => return Some(None),
        Some(serde_json::Value::Object(m)) => m,
        Some(_) => return None,
    };
    match outer_obj.get(inner) {
        None | Some(serde_json::Value::Null) => Some(None),
        Some(serde_json::Value::String(s)) => Some(Some(s.as_bytes().to_vec())),
        Some(_) => None,
    }
}

} // verus!
