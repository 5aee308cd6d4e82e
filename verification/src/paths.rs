//! Byte-string paths: joining and `.`/`..` normalization, modelled on how a
//! path is folded over its `/`-separated components (a `.` component is
//! dropped, a `..` component removes the previous one, an empty component is
//! ignored, and a leading `/` marks an absolute path that `..` cannot remove).

use vstd::prelude::*;

use crate::bytes::{clone_bytes, concat_bytes, split_bytes, spec_split, views};

verus! {

/// One normalization step: fold `seg` onto the components kept so far.
pub open spec fn spec_norm_step(acc: Seq<Seq<u8>>, seg: Seq<u8>) -> Seq<Seq<u8>> {
    if seg.len() == 0 || seg == seq![46u8] {
        acc
    } else if seg == seq![46u8, 46u8] {
        if acc.len() > 0 {
            acc.drop_last()
        } else {
            acc
        }
    } else {
        acc.push(seg)
    }
}

/// Fold all of `segs` onto `acc`.
pub open spec fn spec_norm_fold(segs: Seq<Seq<u8>>, acc: Seq<Seq<u8>>) -> Seq<Seq<u8>>
    decreases segs.len(),
{
    if segs.len() == 0 {
        acc
    } else {
        spec_norm_fold(segs.skip(1), spec_norm_step(acc, segs[0]))
    }
}

/// The segments joined by `/`, with no leading or trailing separator.
pub open spec fn spec_joined(segs: Seq<Seq<u8>>) -> Seq<u8>
    decreases segs.len(),
{
    if segs.len() == 0 {
        Seq::empty()
    } else if segs.len() == 1 {
        segs[0]
    } else {
        segs[0] + seq![47u8] + spec_joined(segs.skip(1))
    }
}

/// `p` with empty, `.` and `..` components collapsed.
pub open spec fn spec_normalize_path(p: Seq<u8>) -> Seq<u8> {
    let segs = spec_norm_fold(spec_split(p, 47), Seq::empty());
    if p.len() > 0 && p[0] == 47 {
        seq![47u8] + spec_joined(segs)
    } else {
        spec_joined(segs)
    }
}

/// `b` if it is absolute, otherwise `a`, a separator, and `b`.
pub open spec fn spec_join_path(a: Seq<u8>, b: Seq<u8>) -> Seq<u8> {
    if b.len() > 0 && b[0] == 47 {
        b
    } else {
        a + seq![47u8] + b
    }
}

/// The segments of `segs` joined by `/` separators.
fn join_segments(segs: &Vec<Vec<u8>>) -> (r: Vec<u8>)
    ensures
        r@ == spec_joined(views(segs@)),
{
    let ghost v = views(segs@);
    let mut out: Vec<u8> = Vec::new();
    let mut j: usize = 0;
    while j < segs.len()
        invariant
            v == views(segs@),
            j <= v.len(),
            j == 0 ==> out@ == Seq::<u8>::empty(),
            0 < j < v.len() ==> spec_joined(v) == out@ + seq![47u8] + spec_joined(
                v.skip(j as int),
            ),
            0 < j && j == v.len() ==> spec_joined(v) == out@,
        decreases v.len() - j,
    {
        if j == 0 {
            out = clone_bytes(&segs[0]);
            proof {
                if v.len() > 1 {
                    assert(spec_joined(v) == v[0] + seq![47u8] + spec_joined(v.skip(1)));
                }
            }
        } else {
            let ghost o = out@;
            out.push(47);
            out = concat_bytes(&out, &segs[j]);
            proof {
                let tail = v.skip(j as int);
                assert(tail[0] == v[j as int]);
                assert(out@ =~= o + seq![47u8] + v[j as int]);
                if j + 1 < v.len() {
                    assert(tail.skip(1) =~= v.skip(j + 1));
                    assert(spec_joined(tail) == tail[0] + seq![47u8] + spec_joined(v.skip(j + 1)));
                    assert(o + seq![47u8] + spec_joined(tail) =~= out@ + seq![47u8] + spec_joined(
                        v.skip(j + 1),
                    ));
                } else {
                    assert(tail.len() == 1);
                    assert(spec_joined(tail) == tail[0]);
                    assert(o + seq![47u8] + spec_joined(tail) =~= out@);
                }
            }
        }
        j = j + 1;
    }
    out
}

/// `p` with empty, `.` and `..` components collapsed, keeping a leading `/`.
pub fn normalize_path(p: &Vec<u8>) -> (r: Vec<u8>)
    ensures
        r@ == spec_normalize_path(p@),
{
    let segs = split_bytes(p, 47);
    let mut acc: Vec<Vec<u8>> = Vec::new();
    let mut i: usize = 0;
    proof {
        assert(views(segs@).skip(0) =~= views(segs@));
        assert(views(acc@) =~= Seq::<Seq<u8>>::empty());
    }
    while i < segs.len()
        invariant
            i <= segs@.len(),
            spec_norm_fold(views(segs@), Seq::empty()) == spec_norm_fold(
                views(segs@).skip(i as int),
                views(acc@),
            ),
        decreases segs@.len() - i,
    {
        let ghost remaining = views(segs@).skip(i as int);
        proof {
            assert(remaining[0] == views(segs@)[i as int]);
            assert(remaining.skip(1) =~= views(segs@).skip(i + 1));
        }
        let seg = &segs[i];
        if seg.len() == 0 || (seg.len() == 1 && seg[0] == 46) {
            proof {
                if seg@.len() == 1 && seg@[0] == 46 {
                    assert(seg@ =~= seq![46u8]);
                }
            }
        } else if seg.len() == 2 && seg[0] == 46 && seg[1] == 46 {
            proof {
                assert(seg@ =~= seq![46u8, 46u8]);
                assert(seg@ != seq![46u8]);
            }
            if acc.len() > 0 {
                let ghost before = views(acc@);
                acc.pop();
                proof {
                    assert(views(acc@) =~= before.drop_last());
                }
            }
        } else {
            proof {
                assert(seg@ != seq![46u8]);
                assert(seg@ != seq![46u8, 46u8]);
            }
            let copied = clone_bytes(seg);
            proof {
                crate::bytes::lemma_views_push(acc@, copied);
            }
            acc.push(copied);
        }
        i = i + 1;
    }
    proof {
        assert(views(segs@).skip(segs@.len() as int) =~= Seq::<Seq<u8>>::empty());
    }
    let joined = join_segments(&acc);
    if p.len() > 0 && p[0] == 47 {
        let mut out: Vec<u8> = Vec::new();
        out.push(47);
        let r = concat_bytes(&out, &joined);
        proof {
            assert(out@ =~= seq![47u8]);
        }
        r
    } else {
        joined
    }
}

/// `b` if absolute, else `a` extended by `/` and `b`.
pub fn join_path(a: &Vec<u8>, b: &Vec<u8>) -> (r: Vec<u8>)
    ensures
        r@ == spec_join_path(a@, b@),
{
    if b.len() > 0 && b[0] == 47 {
        clone_bytes(b)
    } else {
        let mut left = clone_bytes(a);
        left.push(47);
        let r = concat_bytes(&left, b);
        proof {
            assert(left@ =~= a@ + seq![47u8]);
            assert((a@ + seq![47u8]) + b@ =~= a@ + seq![47u8] + b@);
        }
        r
    }
}

} // verus!
