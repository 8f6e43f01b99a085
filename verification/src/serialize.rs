//! Rendering an assembled record as a stable, human-readable text block.
//!
//! Key order is fixed — name, total, h_index, i10_index, then the yearly
//! mapping under `years`, one indented `year: count` line per entry in
//! ascending year order (`years: {}` when the mapping is empty).  The
//! rendering is a pure function of the record's field values, so identical
//! records always serialize identically.

use vstd::prelude::*;
use crate::numbers::dec_str;
use crate::numbers::usize_to_string;
use crate::record::AuthorInfo;

verus! {

/// One `  year: count` line per entry, in stored order.
pub open spec fn render_years(m: Seq<(usize, usize)>) -> Seq<char>
    decreases m.len(),
{
    if m.len() == 0 {
        Seq::empty()
    } else {
        render_years(m.drop_last()) + "  "@ + dec_str(m.last().0 as nat) + ": "@ + dec_str(
            m.last().1 as nat,
        ) + "\n"@
    }
}

/// The yearly block: a `years:` heading with one line per entry, or
/// `years: {}` for an empty mapping.
pub open spec fn render_years_block(m: Seq<(usize, usize)>) -> Seq<char> {
    if m.len() == 0 {
        "years: {}\n"@
    } else {
        "years:\n"@ + render_years(m)
    }
}

/// The four scalar lines, in fixed key order.
pub open spec fn render_header(
    name: Seq<char>,
    total: usize,
    h_index: usize,
    i10_index: usize,
) -> Seq<char> {
    "name: "@ + name + "\n"@ + "total: "@ + dec_str(total as nat) + "\n"@ + "h_index: "@
        + dec_str(h_index as nat) + "\n"@ + "i10_index: "@ + dec_str(i10_index as nat) + "\n"@
}

/// The full rendering of a record's field values: scalar lines, then the
/// yearly block.
pub open spec fn render_parts(
    name: Seq<char>,
    total: usize,
    h_index: usize,
    i10_index: usize,
    years: Seq<(usize, usize)>,
) -> Seq<char> {
    render_header(name, total, h_index, i10_index) + render_years_block(years)
}

/// The full rendering of a record.
pub open spec fn render_record(info: AuthorInfo) -> Seq<char> {
    render_parts(info.name@, info.total, info.h_index, info.i10_index, info.yearly_citations@)
}

/// Serialization is deterministic: two records carrying identical field
/// values render to identical text, however and whenever each record was
/// constructed.
pub proof fn lemma_serialize_deterministic(a: AuthorInfo, b: AuthorInfo)
    requires
        a.name@ == b.name@,
        a.total == b.total,
        a.h_index == b.h_index,
        a.i10_index == b.i10_index,
        a.yearly_citations@ == b.yearly_citations@,
    ensures
        render_record(a) == render_record(b),
{
}

/// Renders the record, matching [`render_record`] exactly.
pub fn serialize(info: &AuthorInfo) -> (r: String)
    ensures
        r@ == render_record(*info),
{
    let mut out = String::new();
    out.append("name: ");
    out.append(info.name.as_str());
    out.append("\n");
    out.append("total: ");
    let total = usize_to_string(info.total);
    out.append(total.as_str());
    out.append("\n");
    out.append("h_index: ");
    let h_index = usize_to_string(info.h_index);
    out.append(h_index.as_str());
    out.append("\n");
    out.append("i10_index: ");
    let i10_index = usize_to_string(info.i10_index);
    out.append(i10_index.as_str());
    out.append("\n");
    assert(out@ =~= render_header(info.name@, info.total, info.h_index, info.i10_index));
    let years = &info.yearly_citations;
    let n = years.len();
    if n == 0 {
        out.append("years: {}\n");
        assert(out@ =~= render_record(*info));
        return out;
    }
    out.append("years:\n");
    let ghost base = out@;
    proof {
        assert(render_years(years@.take(0)) =~= Seq::<char>::empty());
        assert(base + render_years(years@.take(0)) =~= base);
    }
    let mut i: usize = 0;
    while i < n
        invariant
            n == years@.len(),
            0 <= i <= n,
            out@ == base + render_years(years@.take(i as int)),
        decreases n - i,
    {
        out.append("  ");
        let y = usize_to_string(years[i].0);
        out.append(y.as_str());
        out.append(": ");
        let c = usize_to_string(years[i].1);
        out.append(c.as_str());
        out.append("\n");
        proof {
            let t1 = years@.take(i + 1);
            assert(t1.drop_last() =~= years@.take(i as int));
            assert(t1.last() == years@[i as int]);
            assert(out@ =~= base + render_years(t1));
        }
        i = i + 1;
    }
    proof {
        assert(years@.take(n as int) =~= years@);
        assert(out@ =~= render_record(*info));
    }
    out
}

} // verus!
