//! Parser for `pnpm-lock.yaml`: keys of the `dependencies`, `devDependencies`
//! (or `dev_dependencies`) and `packages` mappings are normalized to bare
//! package names, de-duplicated, and put behind the `node_modules/` prefix.

use vstd::prelude::*;

use crate::bytes::{
    clone_bytes, concat_bytes, spec_split, spec_take_until, split_bytes, take_until, views,
};
use crate::error::ParseError;
use crate::ident::{
    dedup_insert, lemma_dedup_insert_wf, prefix_all, spec_dedup_insert, spec_prefix_all, wf_names,
};
use crate::yaml::{yaml_member_keys, yaml_mapping_member_keys};

verus! {

/// The library name encoded in a lockfile key: for a key of at least three
/// `/`-separated segments whose second segment is scoped (starts with `@`),
/// the scope and the third segment up to its first `@`; for a key of at least
/// two segments, the second segment up to its first `@`; anything shorter
/// normalizes to the empty name.
pub open spec fn spec_yaml_library_name(key: Seq<u8>) -> Seq<u8> {
    let segs = spec_split(key, 47);
    if segs.len() >= 3 && segs[1].len() > 0 && segs[1][0] == 64 {
        segs[1] + seq![47u8] + spec_take_until(segs[2], 64)
    } else if segs.len() >= 2 {
        spec_take_until(segs[1], 64)
    } else {
        Seq::empty()
    }
}

/// The library name encoded in a pnpm lockfile key.
pub fn extract_yaml_library_name(key: &Vec<u8>) -> (r: Vec<u8>)
    ensures
        r@ == spec_yaml_library_name(key@),
{
    let segs = split_bytes(key, 47);
    let ghost v = views(segs@);
    if segs.len() >= 3 && segs[1].len() > 0 && segs[1][0] == 64 {
        let mut scope = clone_bytes(&segs[1]);
        scope.push(47);
        let name = take_until(&segs[2], 64);
        let r = concat_bytes(&scope, &name);
        proof {
            assert(scope@ =~= v[1] + seq![47u8]);
            assert((v[1] + seq![47u8]) + spec_take_until(v[2], 64) =~= v[1] + seq![47u8]
                + spec_take_until(v[2], 64));
        }
        r
    } else if segs.len() >= 2 {
        take_until(&segs[1], 64)
    } else {
        Vec::new()
    }
}

/// The keys of the four recognised sections, in order: `dependencies`,
/// `devDependencies`, `dev_dependencies`, `packages`; `None` when any lookup
/// finds malformed content.
pub open spec fn spec_pnpm_sections(content: Seq<u8>) -> Option<Seq<Seq<u8>>> {
    let d = yaml_member_keys(content, "dependencies"@);
    let dd = yaml_member_keys(content, "devDependencies"@);
    let du = yaml_member_keys(content, "dev_dependencies"@);
    let p = yaml_member_keys(content, "packages"@);
    if d is Some && dd is Some && du is Some && p is Some {
        Some(
            section_keys(d->Some_0) + section_keys(dd->Some_0) + section_keys(du->Some_0)
                + section_keys(p->Some_0),
        )
    } else {
        None
    }
}

/// An absent section contributes no keys.
pub open spec fn section_keys(s: Option<Seq<Seq<u8>>>) -> Seq<Seq<u8>> {
    match s {
        None => Seq::empty(),
        Some(ks) => ks,
    }
}

/// First-seen fold of the normalized library names of `keys` onto `acc`.
pub open spec fn spec_pnpm_key_fold(keys: Seq<Seq<u8>>, acc: Seq<Seq<u8>>) -> Seq<Seq<u8>>
    decreases keys.len(),
{
    if keys.len() == 0 {
        acc
    } else {
        spec_pnpm_key_fold(keys.skip(1), spec_dedup_insert(acc, spec_yaml_library_name(keys[0])))
    }
}

/// The identifiers extracted from `pnpm-lock.yaml` content.
pub open spec fn spec_pnpm_identifiers(content: Seq<u8>) -> Option<Seq<Seq<u8>>> {
    match spec_pnpm_sections(content) {
        None => None,
        Some(keys) => Some(spec_prefix_all(spec_pnpm_key_fold(keys, Seq::empty()))),
    }
}

/// Parses `pnpm-lock.yaml` content. The keys of the `dependencies`,
/// `devDependencies`, `dev_dependencies` and `packages` mappings are taken in
/// that order; each is normalized to its library name, empty names are
/// discarded, the rest are de-duplicated keeping first-seen order and put
/// behind the `node_modules/` prefix. A missing section is an empty mapping;
/// content that is not a YAML mapping, or a section of another kind, is
/// malformed.
pub fn parse_pnpm_lock(content: &Vec<u8>) -> (r: Result<Vec<Vec<u8>>, ParseError>)
    ensures
        r matches Ok(ids) ==> spec_pnpm_identifiers(content@) == Some(views(ids@)) && views(
            ids@,
        ).no_duplicates(),
        r is Err ==> spec_pnpm_identifiers(content@) is None,
        r is Err ==> r == Err::<Vec<Vec<u8>>, ParseError>(ParseError::Malformed),
{
    let d = yaml_mapping_member_keys(content, "dependencies");
    let dd = yaml_mapping_member_keys(content, "devDependencies");
    let du = yaml_mapping_member_keys(content, "dev_dependencies");
    let p = yaml_mapping_member_keys(content, "packages");
    let (d, dd, du, p) = match (d, dd, du, p) {
        (Some(d), Some(dd), Some(du), Some(p)) => (d, dd, du, p),
        _ => {
            return Err(ParseError::Malformed);
        },
    };
    let mut keys = section_vec(d);
    let mut rest = section_vec(dd);
    let ghost k0 = views(keys@);
    let ghost k1 = views(rest@);
    keys.append(&mut rest);
    proof {
        assert(views(keys@) =~= k0 + k1);
    }
    let mut rest = section_vec(du);
    let ghost k01 = views(keys@);
    let ghost k2 = views(rest@);
    keys.append(&mut rest);
    proof {
        assert(views(keys@) =~= k01 + k2);
    }
    let mut rest = section_vec(p);
    let ghost k012 = views(keys@);
    let ghost k3 = views(rest@);
    keys.append(&mut rest);
    proof {
        assert(views(keys@) =~= k012 + k3);
        assert(((k0 + k1) + k2) + k3 =~= k0 + k1 + k2 + k3);
        assert(views(keys@) == section_keys(yaml_member_keys(content@, "dependencies"@)->Some_0)
            + section_keys(yaml_member_keys(content@, "devDependencies"@)->Some_0) + section_keys(
            yaml_member_keys(content@, "dev_dependencies"@)->Some_0,
        ) + section_keys(yaml_member_keys(content@, "packages"@)->Some_0));
    }
    let ghost all_keys = views(keys@);
    let mut names: Vec<Vec<u8>> = Vec::new();
    let mut i: usize = 0;
    proof {
        assert(views(names@) =~= Seq::<Seq<u8>>::empty());
        assert(all_keys.skip(0) =~= all_keys);
    }
    while i < keys.len()
        invariant
            i <= keys@.len(),
            all_keys == views(keys@),
            wf_names(views(names@)),
            spec_pnpm_key_fold(all_keys, Seq::empty()) == spec_pnpm_key_fold(
                all_keys.skip(i as int),
                views(names@),
            ),
        decreases keys@.len() - i,
    {
        let ghost remaining = all_keys.skip(i as int);
        proof {
            assert(remaining[0] == all_keys[i as int]);
            assert(remaining.skip(1) =~= all_keys.skip(i + 1));
        }
        let name = extract_yaml_library_name(&keys[i]);
        proof {
            lemma_dedup_insert_wf(views(names@), name@);
        }
        dedup_insert(&mut names, &name);
        i = i + 1;
    }
    proof {
        assert(all_keys.skip(keys@.len() as int) =~= Seq::<Seq<u8>>::empty());
    }
    let ids = prefix_all(&names);
    proof {
        crate::ident::lemma_prefix_all_no_duplicates(views(names@));
    }
    Ok(ids)
}

/// The keys of one section, an absent section giving none.
fn section_vec(s: Option<Vec<Vec<u8>>>) -> (r: Vec<Vec<u8>>)
    ensures
        match s {
            None => views(r@) == Seq::<Seq<u8>>::empty(),
            Some(ks) => views(r@) == views(ks@),
        },
{
    match s {
        None => {
            let r: Vec<Vec<u8>> = Vec::new();
            proof {
                assert(views(r@) =~= Seq::<Seq<u8>>::empty());
            }
            r
        },
        Some(ks) => ks,
    }
}

/// Law: a scoped lockfile key `/@scope/name@version` normalizes to
/// `@scope/name` (the `node_modules/` prefix is added afterwards by
/// `parse_pnpm_lock`). `scope` is the full scope segment including its
/// leading `@` and holds no `/`; `name` holds neither `/` nor `@`; the
/// version tail may hold anything.
pub proof fn lemma_scoped_key_normalizes(scope: Seq<u8>, name: Seq<u8>, ver: Seq<u8>)
    requires
        scope.len() > 0,
        scope[0] == 64,
        forall|j: int| 0 <= j < scope.len() ==> scope[j] != 47,
        forall|j: int| 0 <= j < name.len() ==> name[j] != 47 && name[j] != 64,
    ensures
        spec_yaml_library_name(seq![47u8] + scope + seq![47u8] + name + seq![64u8] + ver) == scope
            + seq![47u8] + name,
{
    let key = seq![47u8] + scope + seq![47u8] + name + seq![64u8] + ver;
    let tail1 = scope + seq![47u8] + name + seq![64u8] + ver;
    let tail2 = name + seq![64u8] + ver;
    crate::bytes::lemma_split_first(key, 47);
    assert(key.skip(1) =~= tail1);
    assert(tail1[scope.len() as int] == 47);
    assert forall|j: int| 0 <= j < scope.len() implies tail1[j] != 47 by {
        assert(tail1[j] == scope[j]);
    }
    crate::bytes::lemma_spec_find_is_first(tail1, 47, scope.len() as int);
    crate::bytes::lemma_split_first(tail1, 47);
    assert(tail1.take(scope.len() as int) =~= scope);
    assert(tail1.skip(scope.len() as int + 1) =~= tail2);
    let segs = spec_split(key, 47);
    crate::bytes::lemma_split_len(tail2, 47);
    assert(segs =~= seq![key.take(0)] + (seq![scope] + spec_split(tail2, 47)));
    assert(segs.len() >= 3);
    assert(segs[1] == scope);
    assert(segs[2] == spec_split(tail2, 47)[0]);
    crate::bytes::lemma_split_first(tail2, 47);
    crate::bytes::lemma_spec_find(tail2, 47);
    let piece = segs[2];
    match crate::bytes::spec_find(tail2, 47) {
        None => {
            assert(piece == tail2);
        },
        Some(i) => {
            assert(piece == tail2.take(i));
            if i <= name.len() {
                if i < name.len() {
                    assert(tail2[i] == name[i]);
                } else {
                    assert(tail2[i] == 64);
                }
                assert(false);
            }
        },
    }
    // In both cases the piece starts with `name` followed by `@`.
    assert(piece.len() > name.len());
    assert(piece[name.len() as int] == tail2[name.len() as int]);
    assert(tail2[name.len() as int] == 64);
    assert forall|j: int| 0 <= j < name.len() implies piece[j] != 64 by {
        assert(piece[j] == tail2[j]);
        assert(tail2[j] == name[j]);
    }
    crate::bytes::lemma_spec_find_is_first(piece, 64, name.len() as int);
    assert(spec_take_until(piece, 64) =~= name);
    assert(segs[1].len() > 0 && segs[1][0] == 64);
    assert(spec_yaml_library_name(key) == scope + seq![47u8] + name);
}

/// Law: an unscoped lockfile key `/name@version` normalizes to `name`. The
/// name is non-empty, not scoped, and holds neither `/` nor `@`; the version
/// tail may hold anything.
pub proof fn lemma_unscoped_key_normalizes(name: Seq<u8>, ver: Seq<u8>)
    requires
        name.len() > 0,
        name[0] != 64,
        forall|j: int| 0 <= j < name.len() ==> name[j] != 47 && name[j] != 64,
    ensures
        spec_yaml_library_name(seq![47u8] + name + seq![64u8] + ver) == name,
{
    let key = seq![47u8] + name + seq![64u8] + ver;
    let tail1 = name + seq![64u8] + ver;
    crate::bytes::lemma_split_first(key, 47);
    assert(key.skip(1) =~= tail1);
    let segs = spec_split(key, 47);
    crate::bytes::lemma_split_len(tail1, 47);
    assert(segs =~= seq![key.take(0)] + spec_split(tail1, 47));
    assert(segs.len() >= 2);
    assert(segs[1] == spec_split(tail1, 47)[0]);
    crate::bytes::lemma_split_first(tail1, 47);
    crate::bytes::lemma_spec_find(tail1, 47);
    let piece = segs[1];
    match crate::bytes::spec_find(tail1, 47) {
        None => {
            assert(piece == tail1);
        },
        Some(i) => {
            assert(piece == tail1.take(i));
            if i <= name.len() {
                if i < name.len() {
                    assert(tail1[i] == name[i]);
                } else {
                    assert(tail1[i] == 64);
                }
                assert(false);
            }
        },
    }
    assert(piece.len() > name.len());
    assert(piece[name.len() as int] == tail1[name.len() as int]);
    assert(tail1[name.len() as int] == 64);
    assert forall|j: int| 0 <= j < name.len() implies piece[j] != 64 by {
        assert(piece[j] == tail1[j]);
        assert(tail1[j] == name[j]);
    }
    crate::bytes::lemma_spec_find_is_first(piece, 64, name.len() as int);
    assert(spec_take_until(piece, 64) =~= name);
    assert(piece[0] == name[0]);
    assert(spec_yaml_library_name(key) == name);
}

} // verus!
