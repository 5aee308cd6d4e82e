//! Parser for `package-lock.json`: the dependency list is exactly the key set
//! of the top-level `packages` object, each key already an installable path
//! such as `node_modules/lodash`.

use vstd::prelude::*;

use crate::bytes::views;
use crate::error::ParseError;
use crate::json::{json_member_keys, json_object_member_keys};

verus! {

/// The identifiers extracted from `package-lock.json` content: the keys of the
/// `packages` object (`None` marks malformed content, an absent member an
/// empty list).
pub open spec fn spec_npm_identifiers(content: Seq<u8>) -> Option<Seq<Seq<u8>>> {
    match json_member_keys(content, "packages"@) {
        None => None,
        Some(None) => Some(Seq::empty()),
        Some(Some(ks)) => Some(ks),
    }
}

/// Parses `package-lock.json` content. The result is every key of the
/// top-level `packages` object, in `serde_json`'s map order, with no
/// duplicates; an absent or null `packages` member yields an empty list;
/// content that is not a JSON object, or a `packages` member of another kind,
/// is malformed. The per-package metadata values are not inspected.
pub fn parse_package_lock(content: &Vec<u8>) -> (r: Result<Vec<Vec<u8>>, ParseError>)
    ensures
        r matches Ok(ids) ==> spec_npm_identifiers(content@) == Some(views(ids@)) && views(
            ids@,
        ).no_duplicates(),
        r is Err ==> spec_npm_identifiers(content@) is None,
        r is Err ==> r == Err::<Vec<Vec<u8>>, ParseError>(ParseError::Malformed),
{
    match json_object_member_keys(content, "packages") {
        None => Err(ParseError::Malformed),
        Some(None) => {
            let ids: Vec<Vec<u8>> = Vec::new();
            proof {
                assert(views(ids@) =~= Seq::<Seq<u8>>::empty());
            }
            Ok(ids)
        },
        Some(Some(ks)) => Ok(ks),
    }
}

} // verus!
