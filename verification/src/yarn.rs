//! Parser for `yarn.lock`: an entry's header line holds comma-separated
//! specifiers before a colon; each specifier's package name is cut off ahead
//! of its version range, de-duplicated, and put behind the `node_modules/`
//! prefix.

use vstd::prelude::*;

use crate::bytes::{
    find_byte, find_from, lemma_spec_find, spec_find, spec_lines, spec_split, spec_trim,
    split_bytes, split_lines, subrange_bytes, trim_bytes, views,
};
use crate::error::ParseError;
use crate::ident::{
    dedup_insert, lemma_dedup_insert_wf, prefix_all, spec_dedup_insert, spec_prefix_all, wf_names,
};

verus! {

/// The package name of one trimmed specifier: for a scoped specifier (leading
/// `@`), everything before the first `@` at or after its first `/` (a scoped
/// specifier without `/` is invalid and yields the empty name); otherwise
/// everything before the first `@`.
pub open spec fn spec_yarn_name(t: Seq<u8>) -> Seq<u8> {
    if t.len() > 0 && t[0] == 64 {
        match spec_find(t, 47) {
            None => Seq::empty(),
            Some(sl) => match spec_find(t.skip(sl), 64) {
                None => t,
                Some(k) => t.take(sl + k),
            },
        }
    } else {
        match spec_find(t, 64) {
            None => t,
            Some(i) => t.take(i),
        }
    }
}

/// First-seen fold of the specifiers' names onto `acc`.
pub open spec fn spec_yarn_token_fold(toks: Seq<Seq<u8>>, acc: Seq<Seq<u8>>) -> Seq<Seq<u8>>
    decreases toks.len(),
{
    if toks.len() == 0 {
        acc
    } else {
        spec_yarn_token_fold(
            toks.skip(1),
            spec_dedup_insert(acc, spec_yarn_name(spec_trim(toks[0]))),
        )
    }
}

/// One line's contribution: the names of the comma-separated specifiers before
/// the first colon; a line without a colon contributes nothing.
pub open spec fn spec_yarn_line_step(acc: Seq<Seq<u8>>, line: Seq<u8>) -> Seq<Seq<u8>> {
    match spec_find(line, 58) {
        None => acc,
        Some(ci) => spec_yarn_token_fold(spec_split(line.take(ci), 44), acc),
    }
}

/// Fold of all lines onto `acc`.
pub open spec fn spec_yarn_line_fold(lines: Seq<Seq<u8>>, acc: Seq<Seq<u8>>) -> Seq<Seq<u8>>
    decreases lines.len(),
{
    if lines.len() == 0 {
        acc
    } else {
        spec_yarn_line_fold(lines.skip(1), spec_yarn_line_step(acc, lines[0]))
    }
}

/// The de-duplicated names of `yarn.lock` content.
pub open spec fn spec_yarn_names(content: Seq<u8>) -> Seq<Seq<u8>> {
    spec_yarn_line_fold(spec_lines(content), Seq::empty())
}

/// The identifiers extracted from `yarn.lock` content.
pub open spec fn spec_yarn_identifiers(content: Seq<u8>) -> Seq<Seq<u8>> {
    spec_prefix_all(spec_yarn_names(content))
}

proof fn lemma_yarn_token_fold_wf(toks: Seq<Seq<u8>>, acc: Seq<Seq<u8>>)
    requires
        wf_names(acc),
    ensures
        wf_names(spec_yarn_token_fold(toks, acc)),
    decreases toks.len(),
{
    if toks.len() > 0 {
        let n = spec_yarn_name(spec_trim(toks[0]));
        lemma_dedup_insert_wf(acc, n);
        lemma_yarn_token_fold_wf(toks.skip(1), spec_dedup_insert(acc, n));
    }
}

proof fn lemma_yarn_line_fold_wf(lines: Seq<Seq<u8>>, acc: Seq<Seq<u8>>)
    requires
        wf_names(acc),
    ensures
        wf_names(spec_yarn_line_fold(lines, acc)),
    decreases lines.len(),
{
    if lines.len() > 0 {
        match spec_find(lines[0], 58) {
            None => {},
            Some(ci) => {
                lemma_yarn_token_fold_wf(spec_split(lines[0].take(ci), 44), acc);
            },
        }
        lemma_yarn_line_fold_wf(lines.skip(1), spec_yarn_line_step(acc, lines[0]));
    }
}

/// The names a `yarn.lock` yields are pairwise distinct and non-empty.
pub proof fn lemma_yarn_names_wf(content: Seq<u8>)
    ensures
        wf_names(spec_yarn_names(content)),
{
    lemma_yarn_line_fold_wf(spec_lines(content), Seq::empty());
}

/// The package name of one trimmed specifier.
fn yarn_name(t: &Vec<u8>) -> (r: Vec<u8>)
    ensures
        r@ == spec_yarn_name(t@),
{
    if t.len() > 0 && t[0] == 64 {
        match find_byte(t, 47) {
            None => Vec::new(),
            Some(sl) => {
                proof {
                    crate::bytes::lemma_spec_find(t@, 47);
                }
                match find_from(t, sl, 64) {
                    None => {
                        proof {
                            assert(spec_find(t@.skip(sl as int), 64) is None);
                        }
                        crate::bytes::clone_bytes(t)
                    },
                    Some(k) => {
                        proof {
                            crate::bytes::lemma_spec_find(t@.skip(sl as int), 64);
                            assert(k - sl < t@.skip(sl as int).len());
                            assert(t@.take(sl + (k - sl)) =~= t@.subrange(0, k as int));
                        }
                        subrange_bytes(t, 0, k)
                    },
                }
            },
        }
    } else {
        crate::bytes::take_until(t, 64)
    }
}

/// Parses `yarn.lock` content. Every line holding a colon is an entry header;
/// the text before its first colon is split on commas into specifiers; each
/// trimmed specifier's package name is extracted, empty names are discarded,
/// the rest are de-duplicated keeping first-seen order and put behind the
/// `node_modules/` prefix. Text alone cannot be malformed, so the parse always
/// succeeds.
pub fn parse_yarn_lock(content: &Vec<u8>) -> (r: Result<Vec<Vec<u8>>, ParseError>)
    ensures
        r matches Ok(ids) && views(ids@) == spec_yarn_identifiers(content@),
{
    let lines = split_lines(content);
    let ghost lv = views(lines@);
    let mut names: Vec<Vec<u8>> = Vec::new();
    let mut i: usize = 0;
    proof {
        assert(views(names@) =~= Seq::<Seq<u8>>::empty());
        assert(lv.skip(0) =~= lv);
    }
    while i < lines.len()
        invariant
            i <= lines@.len(),
            lv == views(lines@),
            wf_names(views(names@)),
            spec_yarn_line_fold(lv, Seq::empty()) == spec_yarn_line_fold(
                lv.skip(i as int),
                views(names@),
            ),
        decreases lines@.len() - i,
    {
        let ghost remaining = lv.skip(i as int);
        proof {
            assert(remaining[0] == lv[i as int]);
            assert(remaining.skip(1) =~= lv.skip(i + 1));
        }
        let line = &lines[i];
        match find_byte(line, 58) {
            None => {},
            Some(ci) => {
                proof {
                    crate::bytes::lemma_spec_find(line@, 58);
                    assert(line@.subrange(0, ci as int) =~= line@.take(ci as int));
                }
                let head = subrange_bytes(line, 0, ci);
                let toks = split_bytes(&head, 44);
                let ghost tv = views(toks@);
                let ghost start_names = views(names@);
                let mut j: usize = 0;
                proof {
                    assert(tv.skip(0) =~= tv);
                }
                while j < toks.len()
                    invariant
                        j <= toks@.len(),
                        tv == views(toks@),
                        wf_names(views(names@)),
                        spec_yarn_token_fold(tv, start_names) == spec_yarn_token_fold(
                            tv.skip(j as int),
                            views(names@),
                        ),
                    decreases toks@.len() - j,
                {
                    let ghost trem = tv.skip(j as int);
                    proof {
                        assert(trem[0] == tv[j as int]);
                        assert(trem.skip(1) =~= tv.skip(j + 1));
                    }
                    let trimmed = trim_bytes(&toks[j]);
                    let name = yarn_name(&trimmed);
                    proof {
                        lemma_dedup_insert_wf(views(names@), name@);
                    }
                    dedup_insert(&mut names, &name);
                    j = j + 1;
                }
                proof {
                    assert(tv.skip(toks@.len() as int) =~= Seq::<Seq<u8>>::empty());
                }
            },
        }
        i = i + 1;
    }
    proof {
        assert(lv.skip(lines@.len() as int) =~= Seq::<Seq<u8>>::empty());
        lemma_yarn_names_wf(content@);
    }
    let ids = prefix_all(&names);
    proof {
        crate::ident::lemma_prefix_all_no_duplicates(views(names@));
    }
    Ok(ids)
}

/// The shape of every emitted package name: non-empty; a scoped name (leading
/// `@`) holds a `/` and no `@` from its first `/` on; an unscoped name holds
/// no `@` at all. In either case no version range survives in the name.
pub open spec fn spec_yarn_name_shape(n: Seq<u8>) -> bool {
    n.len() > 0 && if n[0] == 64 {
        match spec_find(n, 47) {
            Some(sl) => forall|j: int| sl <= j < n.len() ==> n[j] != 64,
            None => false,
        }
    } else {
        forall|j: int| 0 <= j < n.len() ==> n[j] != 64
    }
}

/// A non-empty extracted name is well shaped.
proof fn lemma_yarn_name_shape(t: Seq<u8>)
    ensures
        spec_yarn_name(t).len() > 0 ==> spec_yarn_name_shape(spec_yarn_name(t)),
{
    let n = spec_yarn_name(t);
    if n.len() > 0 {
        if t.len() > 0 && t[0] == 64 {
            lemma_spec_find(t, 47);
            match spec_find(t, 47) {
                None => {},
                Some(sl) => {
                    lemma_spec_find(t.skip(sl), 64);
                    match spec_find(t.skip(sl), 64) {
                        None => {
                            // n == t; its first slash is sl and no later `@`.
                            lemma_spec_find_is_first_at(n, 47, sl);
                            assert forall|j: int| sl <= j < n.len() implies n[j] != 64 by {
                                assert(t.skip(sl)[j - sl] == t[j]);
                            }
                        },
                        Some(k) => {
                            // n == t.take(sl + k); k >= 1 since t[sl] is `/`.
                            assert(t.skip(sl)[0] == t[sl]);
                            assert(n[0] == t[0]);
                            assert(n[sl] == t[sl]);
                            assert forall|j: int| 0 <= j < sl implies n[j] != 47 by {
                                assert(n[j] == t[j]);
                            }
                            lemma_spec_find_is_first_at(n, 47, sl);
                            assert forall|j: int| sl <= j < n.len() implies n[j] != 64 by {
                                assert(n[j] == t[j]);
                                assert(t.skip(sl)[j - sl] == t[j]);
                            }
                        },
                    }
                },
            }
        } else {
            lemma_spec_find(t, 64);
            match spec_find(t, 64) {
                None => {
                    assert forall|j: int| 0 <= j < n.len() implies n[j] != 64 by {
                        assert(n[j] == t[j]);
                    }
                },
                Some(i) => {
                    assert forall|j: int| 0 <= j < n.len() implies n[j] != 64 by {
                        assert(n[j] == t[j]);
                    }
                },
            }
            if n[0] == 64 {
                assert(n[0] != 64);
            }
        }
    }
}

/// Bridge: establish `spec_find(n, c) == Some(i)` from the first occurrence.
proof fn lemma_spec_find_is_first_at(n: Seq<u8>, c: u8, i: int)
    requires
        0 <= i < n.len(),
        n[i] == c,
        forall|j: int| 0 <= j < i ==> n[j] != c,
    ensures
        spec_find(n, c) == Some(i),
{
    crate::bytes::lemma_spec_find_is_first(n, c, i);
}

/// Every name a fold step keeps is well shaped.
pub open spec fn all_shaped(acc: Seq<Seq<u8>>) -> bool {
    forall|k: int| 0 <= k < acc.len() ==> spec_yarn_name_shape(#[trigger] acc[k])
}

proof fn lemma_token_fold_shape(toks: Seq<Seq<u8>>, acc: Seq<Seq<u8>>)
    requires
        all_shaped(acc),
    ensures
        all_shaped(spec_yarn_token_fold(toks, acc)),
    decreases toks.len(),
{
    if toks.len() > 0 {
        let n = spec_yarn_name(spec_trim(toks[0]));
        lemma_yarn_name_shape(spec_trim(toks[0]));
        let next = spec_dedup_insert(acc, n);
        assert forall|k: int| 0 <= k < next.len() implies spec_yarn_name_shape(
            #[trigger] next[k],
        ) by {
            if k < acc.len() {
                assert(next[k] == acc[k]);
            }
        }
        lemma_token_fold_shape(toks.skip(1), next);
    }
}

proof fn lemma_line_fold_shape(lines: Seq<Seq<u8>>, acc: Seq<Seq<u8>>)
    requires
        all_shaped(acc),
    ensures
        all_shaped(spec_yarn_line_fold(lines, acc)),
    decreases lines.len(),
{
    if lines.len() > 0 {
        match spec_find(lines[0], 58) {
            None => {},
            Some(ci) => {
                lemma_token_fold_shape(spec_split(lines[0].take(ci), 44), acc);
            },
        }
        lemma_line_fold_shape(lines.skip(1), spec_yarn_line_step(acc, lines[0]));
    }
}

/// Law: every identifier the yarn parser emits is `node_modules/` followed by
/// a non-empty name that carries no version range (no `@` in an unscoped
/// name; no `@` at or after the scope separator of a scoped name), and the
/// identifiers are pairwise distinct, however often a name was repeated in
/// the lockfile.
pub proof fn lemma_yarn_identifiers_shape(content: Seq<u8>)
    ensures
        spec_yarn_identifiers(content).no_duplicates(),
        spec_yarn_identifiers(content).len() == spec_yarn_names(content).len(),
        forall|k: int|
            0 <= k < spec_yarn_identifiers(content).len()
                ==> #[trigger] spec_yarn_identifiers(content)[k] == crate::ident::spec_nm_prefix()
                + spec_yarn_names(content)[k] && spec_yarn_name_shape(spec_yarn_names(content)[k]),
{
    let names = spec_yarn_names(content);
    lemma_yarn_names_wf(content);
    crate::ident::lemma_prefix_all_no_duplicates(names);
    lemma_line_fold_shape(spec_lines(content), Seq::empty());
    assert forall|k: int| 0 <= k < spec_yarn_identifiers(content).len() implies #[trigger]
    spec_yarn_identifiers(content)[k] == crate::ident::spec_nm_prefix() + names[k]
        && spec_yarn_name_shape(names[k]) by {
        assert(spec_yarn_identifiers(content)[k] == crate::ident::spec_nm_prefix() + names[k]);
        assert(spec_yarn_name_shape(names[k]));
    }
}
} // verus!
