//! The run over one lockfile: read it, hand its bytes to the manager's
//! parser, and resolve the resulting identifiers to metadata records.

use vstd::prelude::*;

use crate::error::ParseError;
use crate::fsio::read_file;
use crate::manager::ManagersArgs;
use crate::npm::parse_package_lock;
use crate::pnpm::parse_pnpm_lock;
use crate::resolver::{get_node_module_package_info, ParsedPackageJson};
use crate::yarn::parse_yarn_lock;

verus! {

/// The identifiers that `manager`'s parser extracts from lockfile content.
/// The node-family managers each have a parser; the CocoaPods lockfile yields
/// name/path pairs through its own parser rather than identifiers, and Gradle
/// extraction is unsupported, so those two yield errors here.
pub open spec fn spec_lock_identifiers(manager: ManagersArgs, content: Seq<u8>) -> Result<
    Seq<Seq<u8>>,
    ParseError,
> {
    match manager {
        ManagersArgs::NPM => match crate::npm::spec_npm_identifiers(content) {
            None => Err(ParseError::Malformed),
            Some(ids) => Ok(ids),
        },
        ManagersArgs::YARN => Ok(crate::yarn::spec_yarn_identifiers(content)),
        ManagersArgs::PNPM => match crate::pnpm::spec_pnpm_identifiers(content) {
            None => Err(ParseError::Malformed),
            Some(ids) => Ok(ids),
        },
        ManagersArgs::IOS => Err(ParseError::Unsupported),
        ManagersArgs::ANDROID => Err(ParseError::Unsupported),
    }
}

/// Parses lockfile content with `manager`'s parser. For the node-family
/// managers the result is that parser's identifier list; the CocoaPods and
/// Gradle formats do not produce node identifiers, so they are unsupported
/// here (`parse_podlock` serves the CocoaPods format).
pub fn parse_lock_content(manager: ManagersArgs, content: &Vec<u8>) -> (r: Result<
    Vec<Vec<u8>>,
    ParseError,
>)
    ensures
        match r {
            Ok(ids) => spec_lock_identifiers(manager, content@) == Ok::<Seq<Seq<u8>>, ParseError>(
                crate::bytes::views(ids@),
            ),
            Err(e) => spec_lock_identifiers(manager, content@) == Err::<
                Seq<Seq<u8>>,
                ParseError,
            >(e),
        },
{
    match manager {
        ManagersArgs::NPM => parse_package_lock(content),
        ManagersArgs::YARN => parse_yarn_lock(content),
        ManagersArgs::PNPM => parse_pnpm_lock(content),
        ManagersArgs::IOS => Err(ParseError::Unsupported),
        ManagersArgs::ANDROID => Err(ParseError::Unsupported),
    }
}

/// Runs one lockfile through its manager's parser and the resolver. A
/// lockfile that cannot be read or parsed yields no records rather than an
/// error; the CocoaPods and Gradle managers resolve no node manifests, so
/// they always yield no records. What the reads return only the filesystem
/// says, so the contract pins each record's shape through the resolver's.
pub fn parse_lock_file(
    manager: ManagersArgs,
    root: &Vec<u8>,
    lockfile_path: &Vec<u8>,
) -> (r: Vec<ParsedPackageJson>)
    ensures
        manager == ManagersArgs::IOS || manager == ManagersArgs::ANDROID ==> r@.len() == 0,
{
    let content = match read_file(lockfile_path) {
        None => {
            return Vec::new();
        },
        Some(c) => c,
    };
    match parse_lock_content(manager, &content) {
        Err(_) => Vec::new(),
        Ok(identifiers) => get_node_module_package_info(identifiers, root),
    }
}

} // verus!
