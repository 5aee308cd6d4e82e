//! Parser for `ios/Podfile.lock`: a sectioned text format. Lines after a
//! `DEPENDENCIES:` header are dependency lines (`- Name (version)` or
//! `- Name (from \`url\`)`) until the next section header; each yields the
//! library name and where the pod is sourced from.

use vstd::prelude::*;

use crate::bytes::{
    bytes_eq, contains_sub, find_byte, find_sub, is_ws, spec_contains_sub, spec_find,
    spec_find_sub, spec_lines, spec_strip_leading, spec_strip_trailing, spec_trim, split_lines,
    strip_leading_bytes, strip_trailing_bytes, subrange_bytes, trim_bytes,
};
use crate::error::ParseError;

verus! {

/// An ASCII uppercase letter.
pub open spec fn is_upper(b: u8) -> bool {
    65 <= b <= 90
}

/// The bytes of `DEPENDENCIES:`.
pub open spec fn spec_deps_header() -> Seq<u8> {
    seq![68u8, 69u8, 80u8, 69u8, 78u8, 68u8, 69u8, 78u8, 67u8, 73u8, 69u8, 83u8, 58u8]
}

/// The bytes of `~>`.
pub open spec fn spec_tilde_marker() -> Seq<u8> {
    seq![126u8, 62u8]
}

/// The bytes of ``` (from ` ``` (space, parenthesis, `from`, space, backtick).
pub open spec fn spec_from_marker() -> Seq<u8> {
    seq![32u8, 40u8, 102u8, 114u8, 111u8, 109u8, 32u8, 96u8]
}

/// The bytes of `./Pods`.
pub open spec fn spec_pods_path() -> Seq<u8> {
    seq![46u8, 47u8, 80u8, 111u8, 100u8, 115u8]
}

/// A section header: non-empty once trimmed, and made of uppercase letters,
/// whitespace and colons alone.
pub open spec fn spec_is_section_header(line: Seq<u8>) -> bool {
    spec_trim(line).len() > 0 && (forall|i: int|
        0 <= i < line.len() ==> is_upper(line[i]) || is_ws(line[i]) || line[i] == 58)
}

/// Whether every byte of `s` is an uppercase letter.
pub open spec fn spec_all_upper(s: Seq<u8>) -> bool {
    forall|i: int| 0 <= i < s.len() ==> is_upper(s[i])
}

/// The name and source path of one dependency line, `None` for a line that
/// declares no dependency. The name is the text before the first `(`, with
/// surrounding whitespace and leading dashes stripped. The path is `./Pods`
/// for a version-range line (one holding `~>`); otherwise the text after the
/// ``` (from ` ``` marker with the closing backtick and parenthesis stripped;
/// otherwise empty.
pub open spec fn spec_dep_line(line: Seq<u8>) -> Option<(Seq<u8>, Seq<u8>)> {
    let t = spec_trim(line);
    if t.len() == 0 || spec_all_upper(t) {
        None
    } else {
        match spec_find(t, 40) {
            None => None,
            Some(i) => {
                let name = spec_trim(spec_strip_leading(spec_trim(t.take(i)), 45));
                let path = if spec_contains_sub(t, spec_tilde_marker()) {
                    spec_pods_path()
                } else {
                    match spec_find_sub(t, spec_from_marker()) {
                        None => Seq::empty(),
                        Some(m) => spec_trim(
                            spec_strip_trailing(
                                spec_strip_trailing(t.skip(m + spec_from_marker().len()), 41),
                                96,
                            ),
                        ),
                    }
                };
                Some((name, path))
            },
        }
    }
}

/// Dependency lines until the next section header, after the `DEPENDENCIES:`
/// header has been seen. A repeated `DEPENDENCIES:` line is skipped; any other
/// section header ends the scan.
pub open spec fn spec_podlock_collect(lines: Seq<Seq<u8>>) -> Seq<(Seq<u8>, Seq<u8>)>
    decreases lines.len(),
{
    if lines.len() == 0 {
        Seq::empty()
    } else if spec_trim(lines[0]) == spec_deps_header() {
        spec_podlock_collect(lines.skip(1))
    } else if spec_is_section_header(lines[0]) {
        Seq::empty()
    } else {
        match spec_dep_line(lines[0]) {
            None => spec_podlock_collect(lines.skip(1)),
            Some(p) => seq![p] + spec_podlock_collect(lines.skip(1)),
        }
    }
}

/// Skip lines until the `DEPENDENCIES:` header, then collect.
pub open spec fn spec_podlock_scan(lines: Seq<Seq<u8>>) -> Seq<(Seq<u8>, Seq<u8>)>
    decreases lines.len(),
{
    if lines.len() == 0 {
        Seq::empty()
    } else if spec_trim(lines[0]) == spec_deps_header() {
        spec_podlock_collect(lines.skip(1))
    } else {
        spec_podlock_scan(lines.skip(1))
    }
}

/// The dependencies extracted from `Podfile.lock` content, in encounter order.
pub open spec fn spec_podlock_dependencies(content: Seq<u8>) -> Seq<(Seq<u8>, Seq<u8>)> {
    spec_podlock_scan(spec_lines(content))
}

/// The views of a sequence of byte-vector pairs.
pub open spec fn pair_views(s: Seq<(Vec<u8>, Vec<u8>)>) -> Seq<(Seq<u8>, Seq<u8>)> {
    s.map_values(|p: (Vec<u8>, Vec<u8>)| (p.0@, p.1@))
}

/// The bytes of `DEPENDENCIES:`.
fn deps_header() -> (r: Vec<u8>)
    ensures
        r@ == spec_deps_header(),
{
    let mut v: Vec<u8> = Vec::new();
    v.push(68);
    v.push(69);
    v.push(80);
    v.push(69);
    v.push(78);
    v.push(68);
    v.push(69);
    v.push(78);
    v.push(67);
    v.push(73);
    v.push(69);
    v.push(83);
    v.push(58);
    proof {
        assert(v@ =~= spec_deps_header());
    }
    v
}

/// The bytes of `~>`.
fn tilde_marker() -> (r: Vec<u8>)
    ensures
        r@ == spec_tilde_marker(),
{
    let mut v: Vec<u8> = Vec::new();
    v.push(126);
    v.push(62);
    proof {
        assert(v@ =~= spec_tilde_marker());
    }
    v
}

/// The bytes of ``` (from ` ```.
fn from_marker() -> (r: Vec<u8>)
    ensures
        r@ == spec_from_marker(),
{
    let mut v: Vec<u8> = Vec::new();
    v.push(32);
    v.push(40);
    v.push(102);
    v.push(114);
    v.push(111);
    v.push(109);
    v.push(32);
    v.push(96);
    proof {
        assert(v@ =~= spec_from_marker());
    }
    v
}

/// The bytes of `./Pods`.
fn pods_path() -> (r: Vec<u8>)
    ensures
        r@ == spec_pods_path(),
{
    let mut v: Vec<u8> = Vec::new();
    v.push(46);
    v.push(47);
    v.push(80);
    v.push(111);
    v.push(100);
    v.push(115);
    proof {
        assert(v@ =~= spec_pods_path());
    }
    v
}

/// Whether `line` is a section header.
fn is_section_header(line: &Vec<u8>) -> (r: bool)
    ensures
        r == spec_is_section_header(line@),
{
    let t = trim_bytes(line);
    if t.len() == 0 {
        return false;
    }
    let mut i: usize = 0;
    while i < line.len()
        invariant
            spec_trim(line@).len() > 0,
            i <= line@.len(),
            forall|j: int|
                0 <= j < i ==> is_upper(line@[j]) || is_ws(line@[j]) || line@[j] == 58,
        decreases line@.len() - i,
    {
        let b = line[i];
        if !((65 <= b && b <= 90) || crate::bytes::is_ws_byte(b) || b == 58) {
            return false;
        }
        i = i + 1;
    }
    true
}

/// Whether every byte of `s` is an uppercase letter.
fn all_upper(s: &Vec<u8>) -> (r: bool)
    ensures
        r == spec_all_upper(s@),
{
    let mut i: usize = 0;
    while i < s.len()
        invariant
            i <= s@.len(),
            forall|j: int| 0 <= j < i ==> is_upper(s@[j]),
        decreases s@.len() - i,
    {
        let b = s[i];
        if !(65 <= b && b <= 90) {
            return false;
        }
        i = i + 1;
    }
    true
}

/// The name and source path declared by one dependency line, if any.
pub fn parse_podlock_dependency_line(line: &Vec<u8>) -> (r: Option<(Vec<u8>, Vec<u8>)>)
    ensures
        match r {
            None => spec_dep_line(line@) is None,
            Some(p) => (spec_dep_line(line@) matches Some(q) && p.0@ == q.0 && p.1@ == q.1),
        },
{
    let t = trim_bytes(line);
    if t.len() == 0 || all_upper(&t) {
        return None;
    }
    match find_byte(&t, 40) {
        None => None,
        Some(i) => {
            proof {
                crate::bytes::lemma_spec_find(t@, 40);
                assert(t@.subrange(0, i as int) =~= t@.take(i as int));
            }
            let head = subrange_bytes(&t, 0, i);
            let name = trim_bytes(&strip_leading_bytes(&trim_bytes(&head), 45));
            let tilde = tilde_marker();
            let path: Vec<u8> = if contains_sub(&t, &tilde) {
                pods_path()
            } else {
                let marker = from_marker();
                match find_sub(&t, &marker) {
                    None => Vec::new(),
                    Some(m) => {
                        proof {
                            crate::bytes::lemma_spec_find_sub(t@, marker@);
                            assert(t@.subrange(m + 8, t@.len() as int) =~= t@.skip(m + 8));
                        }
                        let after = subrange_bytes(&t, m + 8, t.len());
                        trim_bytes(&strip_trailing_bytes(&strip_trailing_bytes(&after, 41), 96))
                    },
                }
            };
            Some((name, path))
        },
    }
}

/// Parses `Podfile.lock` content. Lines before the `DEPENDENCIES:` header are
/// skipped; after it, every dependency line yields its library name and source
/// path in encounter order, and the next section header ends the scan. Text
/// alone cannot be malformed, so the parse always succeeds.
pub fn parse_podlock(content: &Vec<u8>) -> (r: Result<Vec<(Vec<u8>, Vec<u8>)>, ParseError>)
    ensures
        r matches Ok(deps) && pair_views(deps@) == spec_podlock_dependencies(content@),
{
    let lines = split_lines(content);
    let ghost lv = crate::bytes::views(lines@);
    let header = deps_header();
    let mut i: usize = 0;
    let mut inside = false;
    proof {
        assert(lv.skip(0) =~= lv);
    }
    while i < lines.len() && !inside
        invariant
            i <= lines@.len(),
            lv == crate::bytes::views(lines@),
            header@ == spec_deps_header(),
            !inside ==> spec_podlock_scan(lv) == spec_podlock_scan(lv.skip(i as int)),
            inside ==> spec_podlock_scan(lv) == spec_podlock_collect(lv.skip(i as int)),
        decreases lines@.len() - i,
    {
        let ghost remaining = lv.skip(i as int);
        proof {
            assert(remaining[0] == lv[i as int]);
            assert(remaining.skip(1) =~= lv.skip(i + 1));
        }
        let t = trim_bytes(&lines[i]);
        if bytes_eq(&t, &header) {
            inside = true;
        }
        i = i + 1;
    }
    let mut out: Vec<(Vec<u8>, Vec<u8>)> = Vec::new();
    proof {
        assert(pair_views(out@) =~= Seq::<(Seq<u8>, Seq<u8>)>::empty());
        if !inside {
            assert(lv.skip(lines@.len() as int) =~= Seq::<Seq<u8>>::empty());
        }
    }
    if !inside {
        return Ok(out);
    }
    while i < lines.len()
        invariant
            i <= lines@.len(),
            lv == crate::bytes::views(lines@),
            header@ == spec_deps_header(),
            spec_podlock_scan(lv) == pair_views(out@) + spec_podlock_collect(lv.skip(i as int)),
            spec_podlock_dependencies(content@) == spec_podlock_scan(lv),
        decreases lines@.len() - i,
    {
        let ghost remaining = lv.skip(i as int);
        proof {
            assert(remaining[0] == lv[i as int]);
            assert(remaining.skip(1) =~= lv.skip(i + 1));
        }
        let t = trim_bytes(&lines[i]);
        if bytes_eq(&t, &header) {
            i = i + 1;
            continue;
        }
        if is_section_header(&lines[i]) {
            proof {
                assert(spec_podlock_collect(remaining) =~= Seq::<(Seq<u8>, Seq<u8>)>::empty());
                assert(pair_views(out@) + spec_podlock_collect(remaining) =~= pair_views(out@));
            }
            return Ok(out);
        }
        match parse_podlock_dependency_line(&lines[i]) {
            None => {},
            Some(p) => {
                let ghost before = pair_views(out@);
                let ghost q = spec_dep_line(lv[i as int])->Some_0;
                proof {
                    assert(spec_podlock_collect(remaining) == seq![q] + spec_podlock_collect(
                        lv.skip(i + 1),
                    ));
                }
                out.push(p);
                proof {
                    assert(pair_views(out@) =~= before.push((p.0@, p.1@)));
                    assert((p.0@, p.1@) == q);
                    assert(before + (seq![q] + spec_podlock_collect(lv.skip(i + 1)))
                        =~= pair_views(out@) + spec_podlock_collect(lv.skip(i + 1)));
                }
            },
        }
        i = i + 1;
    }
    proof {
        assert(lv.skip(lines@.len() as int) =~= Seq::<Seq<u8>>::empty());
        assert(pair_views(out@) + spec_podlock_collect(Seq::<Seq<u8>>::empty()) =~= pair_views(
            out@,
        ));
    }
    Ok(out)
}

} // verus!
