//! Byte-string utilities shared by the lockfile parsers: searching, splitting,
//! trimming and concatenation, each with a mathematical definition over
//! `Seq<u8>` and an executable counterpart proved equal to it.

use vstd::prelude::*;

verus! {

/// Index of the first occurrence of `c` in `s`, if any.
pub open spec fn spec_find(s: Seq<u8>, c: u8) -> Option<int>
    decreases s.len(),
{
    if s.len() == 0 {
        None
    } else if s[0] == c {
        Some(0)
    } else {
        match spec_find(s.skip(1), c) {
            None => None,
            Some(i) => Some(i + 1),
        }
    }
}

/// `spec_find` returns exactly the least index holding `c`.
pub proof fn lemma_spec_find(s: Seq<u8>, c: u8)
    ensures
        match spec_find(s, c) {
            Some(i) => 0 <= i < s.len() && s[i] == c && (forall|j: int| 0 <= j < i ==> s[j] != c),
            None => forall|j: int| 0 <= j < s.len() ==> s[j] != c,
        },
    decreases s.len(),
{
    if s.len() > 0 && s[0] != c {
        lemma_spec_find(s.skip(1), c);
        match spec_find(s.skip(1), c) {
            None => {
                assert forall|j: int| 0 <= j < s.len() implies s[j] != c by {
                    if j > 0 {
                        assert(s.skip(1)[j - 1] == s[j]);
                    }
                }
            },
            Some(i) => {
                assert(s.skip(1)[i] == s[i + 1]);
                assert forall|j: int| 0 <= j < i + 1 implies s[j] != c by {
                    if j > 0 {
                        assert(s.skip(1)[j - 1] == s[j]);
                    }
                }
            },
        }
    }
}

/// The least index at or past which `c` occurs determines `spec_find`.
pub proof fn lemma_spec_find_is_first(s: Seq<u8>, c: u8, i: int)
    requires
        0 <= i < s.len(),
        s[i] == c,
        forall|j: int| 0 <= j < i ==> s[j] != c,
    ensures
        spec_find(s, c) == Some(i),
    decreases i,
{
    if i > 0 {
        assert forall|j: int| 0 <= j < i - 1 implies s.skip(1)[j] != c by {
            assert(s.skip(1)[j] == s[j + 1]);
        }
        assert(s.skip(1)[i - 1] == s[i]);
        lemma_spec_find_is_first(s.skip(1), c, i - 1);
    }
}

/// First index `>= from` holding `c`, over the whole of `s`.
pub fn find_from(s: &Vec<u8>, from: usize, c: u8) -> (r: Option<usize>)
    requires
        from <= s@.len(),
    ensures
        match r {
            Some(i) => from <= i && spec_find(s@.skip(from as int), c) == Some(i - from),
            None => spec_find(s@.skip(from as int), c) is None,
        },
{
    let mut i: usize = from;
    while i < s.len()
        invariant
            from <= i <= s@.len(),
            forall|j: int| from <= j < i ==> s@[j] != c,
        decreases s@.len() - i,
    {
        if s[i] == c {
            proof {
                assert forall|j: int| 0 <= j < i - from implies s@.skip(from as int)[j] != c by {
                    assert(s@.skip(from as int)[j] == s@[j + from]);
                }
                assert(s@.skip(from as int)[i - from] == s@[i as int]);
                lemma_spec_find_is_first(s@.skip(from as int), c, i - from);
            }
            return Some(i);
        }
        i = i + 1;
    }
    proof {
        assert forall|j: int| 0 <= j < s@.skip(from as int).len() implies s@.skip(
            from as int,
        )[j] != c by {
            assert(s@.skip(from as int)[j] == s@[j + from]);
        }
        lemma_spec_find(s@.skip(from as int), c);
    }
    None
}

/// First index of `c` in `s`.
pub fn find_byte(s: &Vec<u8>, c: u8) -> (r: Option<usize>)
    ensures
        match r {
            Some(i) => spec_find(s@, c) == Some(i as int),
            None => spec_find(s@, c) is None,
        },
{
    let r = find_from(s, 0, c);
    proof {
        assert(s@.skip(0) == s@);
    }
    r
}

/// The views of a sequence of byte vectors.
pub open spec fn views(s: Seq<Vec<u8>>) -> Seq<Seq<u8>> {
    s.map_values(|v: Vec<u8>| v@)
}

pub proof fn lemma_views_push(s: Seq<Vec<u8>>, x: Vec<u8>)
    ensures
        views(s.push(x)) == views(s).push(x@),
{
    assert(views(s.push(x)) =~= views(s).push(x@));
}

/// A copy of `v` with the same bytes.
pub fn clone_bytes(v: &Vec<u8>) -> (r: Vec<u8>)
    ensures
        r@ == v@,
{
    let r = v.clone();
    proof {
        assert(r@ =~= v@);
    }
    r
}

/// The bytes of `s` from `a` (inclusive) to `b` (exclusive).
pub fn subrange_bytes(s: &Vec<u8>, a: usize, b: usize) -> (r: Vec<u8>)
    requires
        a <= b <= s@.len(),
    ensures
        r@ == s@.subrange(a as int, b as int),
{
    let mut r: Vec<u8> = Vec::new();
    let mut i: usize = a;
    while i < b
        invariant
            a <= i <= b <= s@.len(),
            r@ == s@.subrange(a as int, i as int),
        decreases b - i,
    {
        r.push(s[i]);
        proof {
            assert(s@.subrange(a as int, i + 1) =~= s@.subrange(a as int, i as int).push(
                s@[i as int],
            ));
        }
        i = i + 1;
    }
    r
}

/// `a` followed by `b`.
pub fn concat_bytes(a: &Vec<u8>, b: &Vec<u8>) -> (r: Vec<u8>)
    ensures
        r@ == a@ + b@,
{
    let mut r = clone_bytes(a);
    let mut i: usize = 0;
    while i < b.len()
        invariant
            i <= b@.len(),
            r@ == a@ + b@.subrange(0, i as int),
        decreases b@.len() - i,
    {
        r.push(b[i]);
        proof {
            assert(a@ + b@.subrange(0, i + 1) =~= (a@ + b@.subrange(0, i as int)).push(
                b@[i as int],
            ));
        }
        i = i + 1;
    }
    proof {
        assert(b@.subrange(0, b@.len() as int) =~= b@);
    }
    r
}

/// Whether `a` and `b` hold the same bytes.
pub fn bytes_eq(a: &Vec<u8>, b: &Vec<u8>) -> (r: bool)
    ensures
        r <==> a@ == b@,
{
    if a.len() != b.len() {
        return false;
    }
    let mut i: usize = 0;
    while i < a.len()
        invariant
            a@.len() == b@.len(),
            i <= a@.len(),
            forall|j: int| 0 <= j < i ==> a@[j] == b@[j],
        decreases a@.len() - i,
    {
        if a[i] != b[i] {
            return false;
        }
        i = i + 1;
    }
    proof {
        assert(a@ =~= b@);
    }
    true
}

/// Whether some element of `list` holds the same bytes as `x`.
pub fn contains_bytes(list: &Vec<Vec<u8>>, x: &Vec<u8>) -> (r: bool)
    ensures
        r <==> views(list@).contains(x@),
{
    let mut i: usize = 0;
    while i < list.len()
        invariant
            i <= list@.len(),
            forall|j: int| 0 <= j < i ==> views(list@)[j] != x@,
        decreases list@.len() - i,
    {
        if bytes_eq(&list[i], x) {
            proof {
                assert(views(list@)[i as int] == x@);
            }
            return true;
        }
        i = i + 1;
    }
    false
}

/// The pieces of `s` between occurrences of `sep` (a piece may be empty; there
/// is always at least one piece).
pub open spec fn spec_split(s: Seq<u8>, sep: u8) -> Seq<Seq<u8>>
    decreases s.len(),
{
    if s.len() == 0 {
        seq![s]
    } else if s[0] == sep {
        seq![Seq::<u8>::empty()] + spec_split(s.skip(1), sep)
    } else {
        let rest = spec_split(s.skip(1), sep);
        seq![seq![s[0]] + rest[0]] + rest.skip(1)
    }
}

/// A split has at least one piece.
pub proof fn lemma_split_len(s: Seq<u8>, sep: u8)
    ensures
        spec_split(s, sep).len() >= 1,
    decreases s.len(),
{
    if s.len() > 0 {
        lemma_split_len(s.skip(1), sep);
    }
}

/// Unfolding of `spec_split` at the first occurrence of the separator.
pub proof fn lemma_split_first(s: Seq<u8>, sep: u8)
    ensures
        match spec_find(s, sep) {
            None => spec_split(s, sep) == seq![s],
            Some(i) => spec_split(s, sep) == seq![s.take(i)] + spec_split(
                s.skip(i + 1),
                sep,
            ),
        },
    decreases s.len(),
{
    lemma_spec_find(s, sep);
    if s.len() == 0 {
        assert(spec_split(s, sep) =~= seq![s]);
    } else if s[0] == sep {
        assert(s.take(0) =~= Seq::<u8>::empty());
        assert(spec_split(s, sep) =~= seq![s.take(0)] + spec_split(s.skip(1), sep));
    } else {
        lemma_split_first(s.skip(1), sep);
        lemma_split_len(s.skip(1), sep);
        let rest = spec_split(s.skip(1), sep);
        match spec_find(s.skip(1), sep) {
            None => {
                assert(seq![s[0]] + rest[0] =~= s);
                assert(spec_split(s, sep) =~= seq![s]);
            },
            Some(k) => {
                // spec_find(s, sep) == Some(k + 1)
                lemma_split_len(s.skip(1).skip(k + 1), sep);
                assert(rest == seq![s.skip(1).take(k)] + spec_split(s.skip(1).skip(k + 1), sep));
                assert(seq![s[0]] + rest[0] =~= s.take(k + 1)) by {
                    assert(rest[0] == s.skip(1).take(k));
                }
                assert(s.skip(1).skip(k + 1) =~= s.skip(k + 2));
                assert(rest.skip(1) =~= spec_split(s.skip(k + 2), sep));
                assert(spec_split(s, sep) =~= seq![s.take(k + 1)] + spec_split(s.skip(k + 2), sep));
            },
        }
    }
}

/// The pieces of `s` between occurrences of `sep`.
pub fn split_bytes(s: &Vec<u8>, sep: u8) -> (r: Vec<Vec<u8>>)
    ensures
        views(r@) == spec_split(s@, sep),
{
    let mut r: Vec<Vec<u8>> = Vec::new();
    let mut start: usize = 0;
    proof {
        assert(s@.skip(0) =~= s@);
        assert(views(r@) + spec_split(s@, sep) =~= spec_split(s@, sep));
    }
    loop
        invariant_except_break
            start <= s@.len(),
            spec_split(s@, sep) == views(r@) + spec_split(s@.skip(start as int), sep),
        ensures
            views(r@) == spec_split(s@, sep),
        decreases s@.len() - start,
    {
        let n = s.len();
        let ghost tail = s@.skip(start as int);
        proof {
            lemma_split_first(tail, sep);
            lemma_spec_find(tail, sep);
        }
        match find_from(s, start, sep) {
            None => {
                let piece = subrange_bytes(s, start, n);
                proof {
                    assert(piece@ =~= tail);
                    lemma_views_push(r@, piece);
                    assert(views(r@).push(tail) =~= views(r@) + seq![tail]);
                    assert(views(r@) + spec_split(tail, sep) =~= views(r@).push(tail));
                }
                r.push(piece);
                break;
            },
            Some(i) => {
                proof {
                    assert(0 <= i - start < tail.len());
                    assert(i < s@.len());
                }
                let piece = subrange_bytes(s, start, i);
                proof {
                    assert(piece@ =~= tail.take(i - start));
                    lemma_views_push(r@, piece);
                    assert(tail.skip(i - start + 1) =~= s@.skip(i + 1));
                    assert(views(r@) + spec_split(tail, sep) =~= views(r@).push(piece@)
                        + spec_split(s@.skip(i + 1), sep));
                }
                r.push(piece);
                start = i + 1;
            },
        }
    }
    r
}

/// ASCII whitespace.
pub open spec fn is_ws(b: u8) -> bool {
    b == 32 || b == 9 || b == 10 || b == 13 || b == 11 || b == 12
}

/// Executable test for [`is_ws`].
pub fn is_ws_byte(b: u8) -> (r: bool)
    ensures
        r == is_ws(b),
{
    b == 32 || b == 9 || b == 10 || b == 13 || b == 11 || b == 12
}

/// `s` without leading whitespace.
pub open spec fn spec_trim_front(s: Seq<u8>) -> Seq<u8>
    decreases s.len(),
{
    if s.len() > 0 && is_ws(s[0]) {
        spec_trim_front(s.skip(1))
    } else {
        s
    }
}

/// `s` without trailing whitespace.
pub open spec fn spec_trim_back(s: Seq<u8>) -> Seq<u8>
    decreases s.len(),
{
    if s.len() > 0 && is_ws(s.last()) {
        spec_trim_back(s.drop_last())
    } else {
        s
    }
}

/// `s` without leading or trailing whitespace.
pub open spec fn spec_trim(s: Seq<u8>) -> Seq<u8> {
    spec_trim_back(spec_trim_front(s))
}

/// `s` with leading and trailing whitespace removed.
pub fn trim_bytes(s: &Vec<u8>) -> (r: Vec<u8>)
    ensures
        r@ == spec_trim(s@),
{
    let mut a: usize = 0;
    proof {
        assert(s@.skip(0) =~= s@);
    }
    while a < s.len() && is_ws_byte(s[a])
        invariant
            a <= s@.len(),
            spec_trim_front(s@) == spec_trim_front(s@.skip(a as int)),
        decreases s@.len() - a,
    {
        proof {
            assert(s@.skip(a as int).skip(1) =~= s@.skip(a + 1));
        }
        a = a + 1;
    }
    proof {
        if a < s@.len() {
            assert(s@.skip(a as int)[0] == s@[a as int]);
        }
        assert(spec_trim_front(s@) == s@.subrange(a as int, s@.len() as int)) by {
            assert(s@.skip(a as int) =~= s@.subrange(a as int, s@.len() as int));
        }
    }
    let mut b: usize = s.len();
    while b > a && is_ws_byte(s[b - 1])
        invariant
            a <= b <= s@.len(),
            spec_trim(s@) == spec_trim_back(s@.subrange(a as int, b as int)),
        decreases b,
    {
        proof {
            let cur = s@.subrange(a as int, b as int);
            assert(cur.last() == s@[b - 1]);
            assert(cur.drop_last() =~= s@.subrange(a as int, b - 1));
        }
        b = b - 1;
    }
    proof {
        if b > a {
            assert(s@.subrange(a as int, b as int).last() == s@[b - 1]);
        }
    }
    subrange_bytes(s, a, b)
}

/// `s` without leading `c` bytes.
pub open spec fn spec_strip_leading(s: Seq<u8>, c: u8) -> Seq<u8>
    decreases s.len(),
{
    if s.len() > 0 && s[0] == c {
        spec_strip_leading(s.skip(1), c)
    } else {
        s
    }
}

/// `s` without trailing `c` bytes.
pub open spec fn spec_strip_trailing(s: Seq<u8>, c: u8) -> Seq<u8>
    decreases s.len(),
{
    if s.len() > 0 && s.last() == c {
        spec_strip_trailing(s.drop_last(), c)
    } else {
        s
    }
}

/// `s` with every leading `c` byte removed.
pub fn strip_leading_bytes(s: &Vec<u8>, c: u8) -> (r: Vec<u8>)
    ensures
        r@ == spec_strip_leading(s@, c),
{
    let mut a: usize = 0;
    proof {
        assert(s@.skip(0) =~= s@);
    }
    while a < s.len() && s[a] == c
        invariant
            a <= s@.len(),
            spec_strip_leading(s@, c) == spec_strip_leading(s@.skip(a as int), c),
        decreases s@.len() - a,
    {
        proof {
            assert(s@.skip(a as int).skip(1) =~= s@.skip(a + 1));
        }
        a = a + 1;
    }
    proof {
        if a < s@.len() {
            assert(s@.skip(a as int)[0] == s@[a as int]);
        }
        assert(s@.skip(a as int) =~= s@.subrange(a as int, s@.len() as int));
    }
    subrange_bytes(s, a, s.len())
}

/// `s` with every trailing `c` byte removed.
pub fn strip_trailing_bytes(s: &Vec<u8>, c: u8) -> (r: Vec<u8>)
    ensures
        r@ == spec_strip_trailing(s@, c),
{
    let mut b: usize = s.len();
    proof {
        assert(s@.subrange(0, s@.len() as int) =~= s@);
    }
    while b > 0 && s[b - 1] == c
        invariant
            b <= s@.len(),
            spec_strip_trailing(s@, c) == spec_strip_trailing(s@.subrange(0, b as int), c),
        decreases b,
    {
        proof {
            let cur = s@.subrange(0, b as int);
            assert(cur.last() == s@[b - 1]);
            assert(cur.drop_last() =~= s@.subrange(0, b - 1));
        }
        b = b - 1;
    }
    proof {
        if b > 0 {
            assert(s@.subrange(0, b as int).last() == s@[b - 1]);
        }
        assert(s@.subrange(0, s@.len() as int) =~= s@);
    }
    subrange_bytes(s, 0, b)
}

/// `l` without one trailing carriage return, as `str::lines` strips it.
pub open spec fn spec_strip_cr(l: Seq<u8>) -> Seq<u8> {
    if l.len() > 0 && l.last() == 13 {
        l.drop_last()
    } else {
        l
    }
}

/// The lines of `s`: pieces between line feeds, a final empty piece dropped,
/// one trailing carriage return removed from each piece.
pub open spec fn spec_lines(s: Seq<u8>) -> Seq<Seq<u8>> {
    let pieces = spec_split(s, 10);
    let trimmed = if pieces.len() > 0 && pieces.last().len() == 0 {
        pieces.drop_last()
    } else {
        pieces
    };
    trimmed.map_values(|l: Seq<u8>| spec_strip_cr(l))
}

/// `l` with one trailing carriage return removed, if present.
pub fn strip_cr_bytes(l: &Vec<u8>) -> (r: Vec<u8>)
    ensures
        r@ == spec_strip_cr(l@),
{
    if l.len() > 0 && l[l.len() - 1] == 13 {
        let r = subrange_bytes(l, 0, l.len() - 1);
        proof {
            assert(l@.drop_last() =~= l@.subrange(0, l@.len() - 1));
        }
        r
    } else {
        clone_bytes(l)
    }
}

/// The lines of `s`.
pub fn split_lines(s: &Vec<u8>) -> (r: Vec<Vec<u8>>)
    ensures
        views(r@) == spec_lines(s@),
{
    let mut v = split_bytes(s, 10);
    proof {
        lemma_split_len(s@, 10);
    }
    let ghost pieces = views(v@);
    if v[v.len() - 1].is_empty() {
        v.pop();
        proof {
            assert(views(v@) =~= pieces.drop_last());
        }
    }
    let ghost trimmed = views(v@);
    let mut r: Vec<Vec<u8>> = Vec::new();
    let mut i: usize = 0;
    while i < v.len()
        invariant
            i <= v@.len(),
            views(v@) == trimmed,
            views(r@) == trimmed.take(i as int).map_values(|l: Seq<u8>| spec_strip_cr(l)),
        decreases v@.len() - i,
    {
        let piece = strip_cr_bytes(&v[i]);
        proof {
            lemma_views_push(r@, piece);
            assert(trimmed.take(i + 1).map_values(|l: Seq<u8>| spec_strip_cr(l)) =~= trimmed.take(
                i as int,
            ).map_values(|l: Seq<u8>| spec_strip_cr(l)).push(spec_strip_cr(trimmed[i as int])));
        }
        r.push(piece);
        i = i + 1;
    }
    proof {
        assert(trimmed.take(v@.len() as int) =~= trimmed);
    }
    r
}

/// Index of the first occurrence of `pat` as a contiguous run in `s`.
pub open spec fn spec_find_sub(s: Seq<u8>, pat: Seq<u8>) -> Option<int>
    decreases s.len(),
{
    if s.len() < pat.len() {
        None
    } else if s.take(pat.len() as int) == pat {
        Some(0)
    } else if s.len() == 0 {
        None
    } else {
        match spec_find_sub(s.skip(1), pat) {
            None => None,
            Some(i) => Some(i + 1),
        }
    }
}

/// Whether `pat` occurs as a contiguous run in `s`.
pub open spec fn spec_contains_sub(s: Seq<u8>, pat: Seq<u8>) -> bool {
    spec_find_sub(s, pat) is Some
}

/// `spec_find_sub` returns exactly the least index where `pat` starts.
pub proof fn lemma_spec_find_sub(s: Seq<u8>, pat: Seq<u8>)
    ensures
        match spec_find_sub(s, pat) {
            Some(i) => 0 <= i && i + pat.len() <= s.len() && s.subrange(i, i + pat.len()) == pat
                && (forall|j: int|
                0 <= j < i ==> #[trigger] s.subrange(j, j + pat.len()) != pat),
            None => forall|j: int|
                0 <= j && j + pat.len() <= s.len() ==> #[trigger] s.subrange(j, j + pat.len())
                    != pat,
        },
    decreases s.len(),
{
    if s.len() >= pat.len() && s.take(pat.len() as int) != pat {
        assert(s.take(pat.len() as int) =~= s.subrange(0, pat.len() as int));
    }
    if s.len() > 0 && !(s.len() >= pat.len() && s.take(pat.len() as int) == pat) {
        lemma_spec_find_sub(s.skip(1), pat);
        match spec_find_sub(s.skip(1), pat) {
            None => {
                assert forall|j: int|
                    0 <= j && j + pat.len() <= s.len() implies #[trigger] s.subrange(
                    j,
                    j + pat.len(),
                ) != pat by {
                    if j > 0 {
                        assert(s.skip(1).subrange(j - 1, j - 1 + pat.len()) =~= s.subrange(
                            j,
                            j + pat.len(),
                        ));
                    } else {
                        assert(s.subrange(0, pat.len() as int) =~= s.take(pat.len() as int));
                    }
                }
            },
            Some(i) => {
                assert(s.skip(1).subrange(i, i + pat.len()) =~= s.subrange(i + 1, i + 1 + pat.len()));
                assert forall|j: int|
                    0 <= j < i + 1 implies #[trigger] s.subrange(j, j + pat.len()) != pat by {
                    if j > 0 {
                        assert(s.skip(1).subrange(j - 1, j - 1 + pat.len()) =~= s.subrange(
                            j,
                            j + pat.len(),
                        ));
                    } else {
                        assert(s.subrange(0, pat.len() as int) =~= s.take(pat.len() as int));
                    }
                }
            },
        }
    }
}

/// Whether `pat` starts at index `at` of `s`.
fn match_at(s: &Vec<u8>, at: usize, pat: &Vec<u8>) -> (r: bool)
    requires
        at + pat@.len() <= s@.len(),
    ensures
        r <==> s@.subrange(at as int, at + pat@.len()) == pat@,
{
    let n = s.len();
    let mut k: usize = 0;
    while k < pat.len()
        invariant
            n == s@.len(),
            at + pat@.len() <= s@.len(),
            k <= pat@.len(),
            forall|j: int| 0 <= j < k ==> s@[at + j] == pat@[j],
        decreases pat@.len() - k,
    {
        if s[at + k] != pat[k] {
            proof {
                assert(s@.subrange(at as int, at + pat@.len())[k as int] == s@[at + k]);
            }
            return false;
        }
        k = k + 1;
    }
    proof {
        assert(s@.subrange(at as int, at + pat@.len()) =~= pat@);
    }
    true
}

/// First index where `pat` occurs in `s`.
pub fn find_sub(s: &Vec<u8>, pat: &Vec<u8>) -> (r: Option<usize>)
    ensures
        match r {
            Some(i) => spec_find_sub(s@, pat@) == Some(i as int),
            None => spec_find_sub(s@, pat@) is None,
        },
{
    if pat.len() > s.len() {
        proof {
            lemma_spec_find_sub(s@, pat@);
        }
        return None;
    }
    if pat.len() == 0 {
        proof {
            assert(s@.take(0) =~= pat@);
        }
        return Some(0);
    }
    let n = s.len();
    let m = pat.len();
    let mut i: usize = 0;
    while i <= n - m
        invariant
            n == s@.len(),
            m == pat@.len(),
            1 <= m <= n,
            i <= n - m + 1,
            forall|j: int| 0 <= j < i ==> #[trigger] s@.subrange(j, j + pat@.len()) != pat@,
        decreases n - i,
    {
        if match_at(s, i, pat) {
            proof {
                lemma_spec_find_sub(s@, pat@);
                match spec_find_sub(s@, pat@) {
                    Some(k) => {
                        if k < i {
                            assert(s@.subrange(k, k + pat@.len()) != pat@);
                        } else if k > i {
                            assert(s@.subrange(i as int, i + pat@.len()) != pat@);
                        }
                    },
                    None => {
                        assert(s@.subrange(i as int, i + pat@.len()) != pat@);
                    },
                }
            }
            return Some(i);
        }
        i = i + 1;
    }
    proof {
        lemma_spec_find_sub(s@, pat@);
        match spec_find_sub(s@, pat@) {
            Some(k) => {
                assert(s@.subrange(k, k + pat@.len()) != pat@);
            },
            None => {},
        }
    }
    None
}

/// Whether `pat` occurs in `s`.
pub fn contains_sub(s: &Vec<u8>, pat: &Vec<u8>) -> (r: bool)
    ensures
        r == spec_contains_sub(s@, pat@),
{
    find_sub(s, pat).is_some()
}

/// `s` up to (not including) the first occurrence of `c`, or all of `s`.
pub open spec fn spec_take_until(s: Seq<u8>, c: u8) -> Seq<u8> {
    match spec_find(s, c) {
        None => s,
        Some(i) => s.take(i),
    }
}

/// The bytes of `s` before the first `c`.
pub fn take_until(s: &Vec<u8>, c: u8) -> (r: Vec<u8>)
    ensures
        r@ == spec_take_until(s@, c),
{
    proof {
        lemma_spec_find(s@, c);
    }
    match find_byte(s, c) {
        None => clone_bytes(s),
        Some(i) => {
            let r = subrange_bytes(s, 0, i);
            proof {
                assert(s@.subrange(0, i as int) =~= s@.take(i as int));
            }
            r
        },
    }
}
} // verus!
