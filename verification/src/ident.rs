//! Package identifiers: the `node_modules/` path prefix and the first-seen
//! de-duplication that the yarn and pnpm parsers apply to extracted names.

use vstd::prelude::*;

use crate::bytes::{clone_bytes, concat_bytes, contains_bytes, views};

verus! {

/// The bytes of `node_modules/`.
pub open spec fn spec_nm_prefix() -> Seq<u8> {
    seq![110u8, 111u8, 100u8, 101u8, 95u8, 109u8, 111u8, 100u8, 117u8, 108u8, 101u8, 115u8, 47u8]
}

/// The bytes of `node_modules/`.
pub fn nm_prefix() -> (r: Vec<u8>)
    ensures
        r@ == spec_nm_prefix(),
{
    let mut v: Vec<u8> = Vec::new();
    v.push(110);
    v.push(111);
    v.push(100);
    v.push(101);
    v.push(95);
    v.push(109);
    v.push(111);
    v.push(100);
    v.push(117);
    v.push(108);
    v.push(101);
    v.push(115);
    v.push(47);
    proof {
        assert(v@ =~= spec_nm_prefix());
    }
    v
}

/// First-seen insertion: keep `n` only when it is non-empty and new.
pub open spec fn spec_dedup_insert(acc: Seq<Seq<u8>>, n: Seq<u8>) -> Seq<Seq<u8>> {
    if n.len() > 0 && !acc.contains(n) {
        acc.push(n)
    } else {
        acc
    }
}

/// Names kept by the de-duplicating folds: pairwise distinct and non-empty.
pub open spec fn wf_names(acc: Seq<Seq<u8>>) -> bool {
    acc.no_duplicates() && (forall|i: int| 0 <= i < acc.len() ==> acc[i].len() > 0)
}

pub proof fn lemma_dedup_insert_wf(acc: Seq<Seq<u8>>, n: Seq<u8>)
    requires
        wf_names(acc),
    ensures
        wf_names(spec_dedup_insert(acc, n)),
{
    if n.len() > 0 && !acc.contains(n) {
        let pushed = acc.push(n);
        assert forall|i: int, j: int|
            0 <= i < pushed.len() && 0 <= j < pushed.len() && i != j implies pushed[i]
            != pushed[j] by {
            if i < acc.len() && j < acc.len() {
            } else if i < acc.len() {
                assert(acc[i] == pushed[i]);
                if pushed[i] == n {
                    assert(acc.contains(n));
                }
            } else if j < acc.len() {
                assert(acc[j] == pushed[j]);
                if pushed[j] == n {
                    assert(acc.contains(n));
                }
            }
        }
    }
}

/// The executable insertion step shared by the parsers: push a copy of `n`
/// when it is non-empty and not yet present.
pub fn dedup_insert(acc: &mut Vec<Vec<u8>>, n: &Vec<u8>)
    ensures
        views(final(acc)@) == spec_dedup_insert(views(old(acc)@), n@),
{
    if n.len() > 0 && !contains_bytes(acc, n) {
        let copied = clone_bytes(n);
        proof {
            crate::bytes::lemma_views_push(acc@, copied);
        }
        acc.push(copied);
    }
}

/// The identifiers: each kept name behind the `node_modules/` prefix.
pub open spec fn spec_prefix_all(names: Seq<Seq<u8>>) -> Seq<Seq<u8>> {
    names.map_values(|n: Seq<u8>| spec_nm_prefix() + n)
}

/// Prefixing keeps names distinct.
pub proof fn lemma_prefix_all_no_duplicates(names: Seq<Seq<u8>>)
    requires
        names.no_duplicates(),
    ensures
        spec_prefix_all(names).no_duplicates(),
{
    let p = spec_prefix_all(names);
    assert forall|i: int, j: int|
        0 <= i < p.len() && 0 <= j < p.len() && i != j implies p[i] != p[j] by {
        if p[i] == p[j] {
            assert(names[i] =~= (spec_nm_prefix() + names[i]).skip(spec_nm_prefix().len() as int));
            assert(names[j] =~= (spec_nm_prefix() + names[j]).skip(spec_nm_prefix().len() as int));
        }
    }
}

/// Copies of the names, each behind the `node_modules/` prefix.
pub fn prefix_all(names: &Vec<Vec<u8>>) -> (r: Vec<Vec<u8>>)
    ensures
        views(r@) == spec_prefix_all(views(names@)),
{
    let prefix = nm_prefix();
    let mut r: Vec<Vec<u8>> = Vec::new();
    let mut i: usize = 0;
    while i < names.len()
        invariant
            i <= names@.len(),
            prefix@ == spec_nm_prefix(),
            views(r@) == spec_prefix_all(views(names@).take(i as int)),
        decreases names@.len() - i,
    {
        let id = concat_bytes(&prefix, &names[i]);
        proof {
            crate::bytes::lemma_views_push(r@, id);
            assert(spec_prefix_all(views(names@).take(i + 1)) =~= spec_prefix_all(
                views(names@).take(i as int),
            ).push(spec_nm_prefix() + views(names@)[i as int]));
        }
        r.push(id);
        i = i + 1;
    }
    proof {
        assert(views(names@).take(names@.len() as int) =~= views(names@));
    }
    r
}

} // verus!
