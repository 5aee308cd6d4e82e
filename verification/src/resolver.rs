//! License metadata resolution: each package identifier names a directory
//! under the project root whose `package.json` is read; the declared metadata
//! is taken over with absent fields defaulted to empty, and a license file is
//! probed for beside the manifest.

use vstd::prelude::*;

use vstd::string::StrSliceExecFns;
use vstd::string::StringSliceAdditionalSpecFns;

use crate::bytes::views;
use crate::fsio::{file_exists_in_directory, read_file};
use crate::json::{
    json_member_member_str, json_member_str, json_object_member_member_str, json_object_member_str,
};
use crate::paths::join_path;

verus! {

/// One resolved package: the manifest's metadata with absent fields defaulted
/// to empty, and the relative path of a license file found beside it (empty
/// when none was).
#[derive(Debug)]
pub struct ParsedPackageJson {
    pub name: Vec<u8>,
    pub description: Vec<u8>,
    pub repository_url: Vec<u8>,
    pub author: Vec<u8>,
    pub license: Vec<u8>,
    pub license_url: Vec<u8>,
}

/// The file names probed for a license, in priority order.
pub open spec fn spec_license_candidates() -> Seq<Seq<u8>> {
    seq![
        "LICENSE".spec_bytes(),
        "license".spec_bytes(),
        "license.md".spec_bytes(),
        "LICENSE.md".spec_bytes(),
        "license.txt".spec_bytes(),
        "LICENSE.txt".spec_bytes(),
    ]
}

/// A well-formed license URL for the package at `id`: empty, or `id` extended
/// by one of the candidate file names.
pub open spec fn spec_license_url_wf(u: Seq<u8>, id: Seq<u8>) -> bool {
    u == Seq::<u8>::empty() || (exists|c: int|
        0 <= c < spec_license_candidates().len() && u == id + seq![47u8]
            + #[trigger] spec_license_candidates()[c])
}

/// The file names probed for a license, in priority order.
fn license_candidates() -> (r: Vec<Vec<u8>>)
    ensures
        views(r@) == spec_license_candidates(),
{
    let mut v: Vec<Vec<u8>> = Vec::new();
    v.push("LICENSE".as_bytes_vec());
    v.push("license".as_bytes_vec());
    v.push("license.md".as_bytes_vec());
    v.push("LICENSE.md".as_bytes_vec());
    v.push("license.txt".as_bytes_vec());
    v.push("LICENSE.txt".as_bytes_vec());
    proof {
        assert(views(v@) =~= spec_license_candidates());
    }
    v
}

/// Index of the first `true` among the probe outcomes, if any.
pub open spec fn spec_first_true(ps: Seq<bool>) -> Option<int>
    decreases ps.len(),
{
    if ps.len() == 0 {
        None
    } else if ps[0] {
        Some(0)
    } else {
        match spec_first_true(ps.skip(1)) {
            None => None,
            Some(i) => Some(i + 1),
        }
    }
}

/// `spec_first_true` stays within bounds and names a `true` entry.
pub proof fn lemma_spec_first_true(ps: Seq<bool>)
    ensures
        match spec_first_true(ps) {
            Some(i) => 0 <= i < ps.len() && ps[i] && (forall|j: int| 0 <= j < i ==> !ps[j]),
            None => forall|j: int| 0 <= j < ps.len() ==> !ps[j],
        },
    decreases ps.len(),
{
    if ps.len() > 0 && !ps[0] {
        lemma_spec_first_true(ps.skip(1));
        match spec_first_true(ps.skip(1)) {
            None => {
                assert forall|j: int| 0 <= j < ps.len() implies !ps[j] by {
                    if j > 0 {
                        assert(ps.skip(1)[j - 1] == ps[j]);
                    }
                }
            },
            Some(i) => {
                assert(ps.skip(1)[i] == ps[i + 1]);
                assert forall|j: int| 0 <= j < i + 1 implies !ps[j] by {
                    if j > 0 {
                        assert(ps.skip(1)[j - 1] == ps[j]);
                    }
                }
            },
        }
    }
}

/// The license URL the probe outcomes determine: for the first candidate whose
/// probe answered `true`, the candidate's path under `node_module_path`; the
/// empty path when every probe answered `false`. This is the whole probe logic
/// short of the filesystem, pinned for every outcome vector.
pub fn license_url_from_probes(node_module_path: &Vec<u8>, probes: &Vec<bool>) -> (r: Vec<u8>)
    requires
        probes@.len() == spec_license_candidates().len(),
    ensures
        match spec_first_true(probes@) {
            Some(c) => r@ == node_module_path@ + seq![47u8] + spec_license_candidates()[c],
            None => r@ == Seq::<u8>::empty(),
        },
{
    proof {
        lemma_spec_first_true(probes@);
    }
    let candidates = license_candidates();
    let mut i: usize = 0;
    while i < probes.len()
        invariant
            probes@.len() == spec_license_candidates().len(),
            views(candidates@) == spec_license_candidates(),
            i <= probes@.len(),
            forall|j: int| 0 <= j < i ==> !probes@[j],
        decreases probes@.len() - i,
    {
        if probes[i] {
            let mut file_path = crate::bytes::clone_bytes(node_module_path);
            file_path.push(47);
            let file_path = crate::bytes::concat_bytes(&file_path, &candidates[i]);
            proof {
                lemma_spec_first_true(probes@);
                assert(file_path@ =~= node_module_path@ + seq![47u8] + spec_license_candidates()[
                i as int]);
            }
            return file_path;
        }
        i = i + 1;
    }
    proof {
        lemma_spec_first_true(probes@);
    }
    let empty: Vec<u8> = Vec::new();
    proof {
        assert(empty@ =~= Seq::<u8>::empty());
    }
    empty
}

/// The relative path of the first license candidate that exists under
/// `node_module_path`, or the empty path when none does. Some path is always
/// handed back; what exists only the filesystem says, so this function pins
/// the shape of the path, and `license_url_from_probes` pins the choice for
/// every vector of probe outcomes.
pub fn get_license_file_url(node_module_path: &Vec<u8>, root_directory: &Vec<u8>) -> (r: Option<
    Vec<u8>,
>)
    ensures
        r is Some,
        r matches Some(u) ==> spec_license_url_wf(u@, node_module_path@),
{
    let candidates = license_candidates();
    let mut probes: Vec<bool> = Vec::new();
    let mut i: usize = 0;
    while i < candidates.len()
        invariant
            views(candidates@) == spec_license_candidates(),
            i <= candidates@.len(),
            probes@.len() == i,
        decreases candidates@.len() - i,
    {
        let mut file_path = crate::bytes::clone_bytes(node_module_path);
        file_path.push(47);
        let file_path = crate::bytes::concat_bytes(&file_path, &candidates[i]);
        probes.push(file_exists_in_directory(&file_path, root_directory));
        i = i + 1;
    }
    let url = license_url_from_probes(node_module_path, &probes);
    proof {
        lemma_spec_first_true(probes@);
    }
    Some(url)
}

/// The field value a query yielded, an absent field defaulting to empty.
pub open spec fn spec_field_or_empty(v: Option<Option<Seq<u8>>>) -> Seq<u8> {
    match v {
        Some(Some(s)) => s,
        _ => Seq::empty(),
    }
}

/// Whether manifest content parses as a metadata object: a JSON object whose
/// `name`, `description`, `author` and `license` members are strings when
/// present, and whose `repository` member, when present, is an object with an
/// optional string `url`.
pub open spec fn spec_manifest_ok(m: Seq<u8>) -> bool {
    json_member_str(m, "name"@) is Some && json_member_str(m, "description"@) is Some
        && json_member_member_str(m, "repository"@, "url"@) is Some && json_member_str(
        m,
        "author"@,
    ) is Some && json_member_str(m, "license"@) is Some
}

/// The record the manifest content `m` resolves to, its license-file field
/// taken over from `license_url`; `None` exactly when the content is not a
/// well-formed manifest.
pub fn package_record_from_manifest(m: &Vec<u8>, license_url: Vec<u8>) -> (r: Option<
    ParsedPackageJson,
>)
    ensures
        r is Some <==> spec_manifest_ok(m@),
        r matches Some(rec) ==> rec.name@ == spec_field_or_empty(json_member_str(m@, "name"@))
            && rec.description@ == spec_field_or_empty(json_member_str(m@, "description"@))
            && rec.repository_url@ == spec_field_or_empty(
            json_member_member_str(m@, "repository"@, "url"@),
        ) && rec.author@ == spec_field_or_empty(json_member_str(m@, "author"@)) && rec.license@
            == spec_field_or_empty(json_member_str(m@, "license"@)) && rec.license_url
            == license_url,
{
    let name = match json_object_member_str(m, "name") {
        None => {
            return None;
        },
        Some(v) => field_or_empty(v),
    };
    let description = match json_object_member_str(m, "description") {
        None => {
            return None;
        },
        Some(v) => field_or_empty(v),
    };
    let repository_url = match json_object_member_member_str(m, "repository", "url") {
        None => {
            return None;
        },
        Some(v) => field_or_empty(v),
    };
    let author = match json_object_member_str(m, "author") {
        None => {
            return None;
        },
        Some(v) => field_or_empty(v),
    };
    let license = match json_object_member_str(m, "license") {
        None => {
            return None;
        },
        Some(v) => field_or_empty(v),
    };
    Some(
        ParsedPackageJson {
            name,
            description,
            repository_url,
            author,
            license,
            license_url,
        },
    )
}

/// The inner field value, an absent field defaulting to empty bytes.
fn field_or_empty(v: Option<Vec<u8>>) -> (r: Vec<u8>)
    ensures
        match v {
            Some(s) => r@ == s@,
            None => r@ == Seq::<u8>::empty(),
        },
{
    match v {
        Some(s) => s,
        None => {
            let empty: Vec<u8> = Vec::new();
            proof {
                assert(empty@ =~= Seq::<u8>::empty());
            }
            empty
        },
    }
}

/// Whether `rec` carries a license URL shaped for one of the identifiers.
pub open spec fn spec_record_from(rec: ParsedPackageJson, ids: Seq<Seq<u8>>) -> bool {
    exists|i: int| 0 <= i < ids.len() && spec_license_url_wf(rec.license_url@, #[trigger] ids[i])
}

/// Resolves each identifier to its metadata record: the identifier names a
/// directory under `root_directory` whose `package.json` is read and parsed;
/// an unreadable or malformed manifest drops that identifier and no other.
/// At most one record per identifier comes back, in input order; what each
/// holds depends on the manifest read, so the contract pins the bound and the
/// shape of each record's license URL.
pub fn get_node_module_package_info(
    node_modules_path: Vec<Vec<u8>>,
    root_directory: &Vec<u8>,
) -> (r: Vec<ParsedPackageJson>)
    ensures
        r@.len() <= node_modules_path@.len(),
        forall|k: int|
            0 <= k < r@.len() ==> spec_record_from(#[trigger] r@[k], views(node_modules_path@)),
{
    let mut node_module_info: Vec<ParsedPackageJson> = Vec::new();
    let mut i: usize = 0;
    while i < node_modules_path.len()
        invariant
            i <= node_modules_path@.len(),
            node_module_info@.len() <= i,
            forall|k: int|
                0 <= k < node_module_info@.len() ==> spec_record_from(
                    #[trigger] node_module_info@[k],
                    views(node_modules_path@),
                ),
        decreases node_modules_path@.len() - i,
    {
        let node_module_path = &node_modules_path[i];
        let package_dir = join_path(root_directory, node_module_path);
        let manifest_rel = "package.json".as_bytes_vec();
        let package_json_path = join_path(&package_dir, &manifest_rel);
        match read_file(&package_json_path) {
            None => {},
            Some(content) => {
                let license_url = match get_license_file_url(node_module_path, root_directory) {
                    Some(u) => u,
                    None => Vec::new(),
                };
                let ghost lu = license_url@;
                match package_record_from_manifest(&content, license_url) {
                    None => {},
                    Some(rec) => {
                        proof {
                            assert(views(node_modules_path@)[i as int] == node_module_path@);
                            assert(spec_record_from(rec, views(node_modules_path@)));
                        }
                        node_module_info.push(rec);
                    },
                }
            },
        }
        i = i + 1;
    }
    node_module_info
}

} // verus!
