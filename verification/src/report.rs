//! Report rendering: resolved records become a line-delimited byte rendering,
//! one record per line with tab-separated fields, which the caller writes out.
//! The rendering is a pure function of the records, so one run's bytes depend
//! on nothing but what was resolved.

use vstd::prelude::*;

use crate::podlock::pair_views;
use crate::resolver::ParsedPackageJson;

verus! {

/// One record's line: the six fields tab-separated, closed by a line feed.
pub open spec fn spec_render_record(rec: ParsedPackageJson) -> Seq<u8> {
    rec.name@ + seq![9u8] + rec.description@ + seq![9u8] + rec.repository_url@ + seq![9u8]
        + rec.author@ + seq![9u8] + rec.license@ + seq![9u8] + rec.license_url@ + seq![10u8]
}

/// The records' lines in order.
pub open spec fn spec_render_records(rs: Seq<ParsedPackageJson>) -> Seq<u8>
    decreases rs.len(),
{
    if rs.len() == 0 {
        Seq::empty()
    } else {
        spec_render_record(rs[0]) + spec_render_records(rs.skip(1))
    }
}

/// The rendering of the resolved node packages, one line per record.
pub fn write_node_dependencies_to_file(records: &Vec<ParsedPackageJson>) -> (out: Vec<u8>)
    ensures
        out@ == spec_render_records(records@),
{
    let mut out: Vec<u8> = Vec::new();
    let mut i: usize = 0;
    proof {
        assert(records@.skip(0) =~= records@);
        assert(out@ + spec_render_records(records@) =~= spec_render_records(records@));
    }
    while i < records.len()
        invariant
            i <= records@.len(),
            spec_render_records(records@) == out@ + spec_render_records(records@.skip(i as int)),
        decreases records@.len() - i,
    {
        let ghost remaining = records@.skip(i as int);
        proof {
            assert(remaining[0] == records@[i as int]);
            assert(remaining.skip(1) =~= records@.skip(i + 1));
        }
        let rec = &records[i];
        let ghost before = out@;
        out = append_field(out, &rec.name, 9);
        out = append_field(out, &rec.description, 9);
        out = append_field(out, &rec.repository_url, 9);
        out = append_field(out, &rec.author, 9);
        out = append_field(out, &rec.license, 9);
        out = append_field(out, &rec.license_url, 10);
        proof {
            assert(out@ =~= before + spec_render_record(records@[i as int]));
            assert(before + (spec_render_record(remaining[0]) + spec_render_records(
                remaining.skip(1),
            )) =~= out@ + spec_render_records(records@.skip(i + 1)));
        }
        i = i + 1;
    }
    proof {
        assert(records@.skip(records@.len() as int) =~= Seq::<ParsedPackageJson>::empty());
    }
    out
}

/// `out` extended by one field and the byte that closes it.
fn append_field(out: Vec<u8>, field: &Vec<u8>, closer: u8) -> (r: Vec<u8>)
    ensures
        r@ == out@ + field@ + seq![closer],
{
    let mut r = crate::bytes::concat_bytes(&out, field);
    r.push(closer);
    proof {
        assert(r@ =~= out@ + field@ + seq![closer]);
    }
    r
}

/// One dependency's line: name and source path tab-separated, closed by a
/// line feed.
pub open spec fn spec_render_pair(p: (Seq<u8>, Seq<u8>)) -> Seq<u8> {
    p.0 + seq![9u8] + p.1 + seq![10u8]
}

/// The dependencies' lines in order.
pub open spec fn spec_render_pairs(ps: Seq<(Seq<u8>, Seq<u8>)>) -> Seq<u8>
    decreases ps.len(),
{
    if ps.len() == 0 {
        Seq::empty()
    } else {
        spec_render_pair(ps[0]) + spec_render_pairs(ps.skip(1))
    }
}

/// The rendering of the parsed CocoaPods dependencies, one line per entry.
pub fn write_ios_dependencies_to_file(dependencies: &Vec<(Vec<u8>, Vec<u8>)>) -> (out: Vec<u8>)
    ensures
        out@ == spec_render_pairs(pair_views(dependencies@)),
{
    let ghost pv = pair_views(dependencies@);
    let mut out: Vec<u8> = Vec::new();
    let mut i: usize = 0;
    proof {
        assert(pv.skip(0) =~= pv);
        assert(out@ + spec_render_pairs(pv) =~= spec_render_pairs(pv));
    }
    while i < dependencies.len()
        invariant
            i <= dependencies@.len(),
            pv == pair_views(dependencies@),
            spec_render_pairs(pv) == out@ + spec_render_pairs(pv.skip(i as int)),
        decreases dependencies@.len() - i,
    {
        let ghost remaining = pv.skip(i as int);
        proof {
            assert(remaining[0] == pv[i as int]);
            assert(remaining.skip(1) =~= pv.skip(i + 1));
        }
        let ghost before = out@;
        out = append_field(out, &dependencies[i].0, 9);
        out = append_field(out, &dependencies[i].1, 10);
        proof {
            assert(out@ =~= before + spec_render_pair(pv[i as int]));
            assert(before + (spec_render_pair(remaining[0]) + spec_render_pairs(remaining.skip(1)))
                =~= out@ + spec_render_pairs(pv.skip(i + 1)));
        }
        i = i + 1;
    }
    proof {
        assert(pv.skip(dependencies@.len() as int) =~= Seq::<(Seq<u8>, Seq<u8>)>::empty());
    }
    out
}

/// The rendering of the Android report: Gradle extraction is unsupported, so
/// no line is ever produced.
pub fn write_android_dependencies_to_file() -> (out: Vec<u8>)
    ensures
        out@ == Seq::<u8>::empty(),
{
    let out: Vec<u8> = Vec::new();
    proof {
        assert(out@ =~= Seq::<u8>::empty());
    }
    out
}

} // verus!
