//! Package managers, the run's arguments, and the lockfile locator: each
//! manager keeps its lockfile at a fixed path relative to the project root.

use vstd::prelude::*;

use vstd::string::StrSliceExecFns;
use vstd::string::StringSliceAdditionalSpecFns;

use crate::bytes::{lemma_views_push, views};
use crate::fsio::file_exists_in_directory;
use crate::paths::{join_path, normalize_path, spec_join_path, spec_normalize_path};

verus! {

/// The package managers whose lockfiles can be read.
#[derive(Debug, Clone, Copy, PartialEq, Eq, Structural)]
pub enum ManagersArgs {
    NPM,
    YARN,
    PNPM,
    IOS,
    ANDROID,
}

/// The arguments one run works with: the manager whose lockfile is read, the
/// project root, and where the report goes. Paths are byte strings.
pub struct ParsedArgs {
    pub manager: ManagersArgs,
    pub root: Vec<u8>,
    pub output: Vec<u8>,
}

/// The relative path of `manager`'s lockfile under a project root.
pub open spec fn spec_lockfile_relative_path(manager: ManagersArgs) -> Seq<u8> {
    match manager {
        ManagersArgs::NPM => "./package-lock.json".spec_bytes(),
        ManagersArgs::YARN => "./yarn.lock".spec_bytes(),
        ManagersArgs::PNPM => "./pnpm-lock.yaml".spec_bytes(),
        ManagersArgs::IOS => "./ios/Podfile.lock".spec_bytes(),
        ManagersArgs::ANDROID => "./android/build.gradle".spec_bytes(),
    }
}

/// The relative path of `manager`'s lockfile under a project root.
pub fn lockfile_relative_path(manager: ManagersArgs) -> (r: Vec<u8>)
    ensures
        r@ == spec_lockfile_relative_path(manager),
{
    match manager {
        ManagersArgs::NPM => "./package-lock.json".as_bytes_vec(),
        ManagersArgs::YARN => "./yarn.lock".as_bytes_vec(),
        ManagersArgs::PNPM => "./pnpm-lock.yaml".as_bytes_vec(),
        ManagersArgs::IOS => "./ios/Podfile.lock".as_bytes_vec(),
        ManagersArgs::ANDROID => "./android/build.gradle".as_bytes_vec(),
    }
}

/// Where `manager`'s lockfile stands under `root`, normalized.
pub open spec fn spec_lockfile_path(manager: ManagersArgs, root: Seq<u8>) -> Seq<u8> {
    spec_normalize_path(spec_join_path(root, spec_lockfile_relative_path(manager)))
}

/// The locator's outcome for a given existence answer: the one normalized
/// lockfile path when `present` holds, nothing otherwise. This is the whole
/// locator short of the filesystem probe, pinned for either answer.
pub fn located_lockfile_paths(
    manager: ManagersArgs,
    root_directory: &Vec<u8>,
    present: bool,
) -> (r: Vec<Vec<u8>>)
    ensures
        present ==> views(r@) == seq![spec_lockfile_path(manager, root_directory@)],
        !present ==> views(r@) == Seq::<Seq<u8>>::empty(),
{
    let mut lockfilepaths: Vec<Vec<u8>> = Vec::new();
    proof {
        assert(views(lockfilepaths@) =~= Seq::<Seq<u8>>::empty());
    }
    if present {
        let file_path = lockfile_relative_path(manager);
        let joined = join_path(root_directory, &file_path);
        let norm = normalize_path(&joined);
        proof {
            lemma_views_push(lockfilepaths@, norm);
            assert(Seq::<Seq<u8>>::empty().push(norm@) =~= seq![
                spec_lockfile_path(manager, root_directory@),
            ]);
        }
        lockfilepaths.push(norm);
    }
    lockfilepaths
}

/// The lockfile paths found for `manager` under `root_directory`: the one
/// normalized path when the lockfile exists, nothing otherwise — a missing
/// lockfile yields an empty list, never an error. Only the filesystem says
/// whether the file exists, so this function pins the contents of the result
/// and its bound, and `located_lockfile_paths` pins the rest for either
/// answer.
pub fn handle_dependencies_files(manager: ManagersArgs, root_directory: &Vec<u8>) -> (r: Vec<
    Vec<u8>,
>)
    ensures
        r@.len() <= 1,
        forall|k: int|
            0 <= k < r@.len() ==> views(r@)[k] == spec_lockfile_path(manager, root_directory@),
{
    let file_path = lockfile_relative_path(manager);
    let present = file_exists_in_directory(&file_path, root_directory);
    let r = located_lockfile_paths(manager, root_directory, present);
    proof {
        assert(views(r@).len() == r@.len());
    }
    r
}

/// The resolved arguments of a run: the project root is `path` taken under
/// `cwd` and the output path is `output` taken under that root, each
/// absolute-aware joined and normalized.
pub fn resolve_args(manager: ManagersArgs, cwd: &Vec<u8>, path: &Vec<u8>, output: &Vec<u8>) -> (r:
    ParsedArgs)
    ensures
        r.manager == manager,
        r.root@ == spec_normalize_path(spec_join_path(cwd@, path@)),
        r.output@ == spec_normalize_path(spec_join_path(r.root@, output@)),
{
    let joined = join_path(cwd, path);
    let root = normalize_path(&joined);
    let joined_output = join_path(&root, output);
    let output_path = normalize_path(&joined_output);
    ParsedArgs { manager, root, output: output_path }
}

} // verus!
