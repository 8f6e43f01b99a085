//! Record assembly: parsing the located regions into an [`AuthorInfo`].
//!
//! Two sub-procedures, both pure functions of a located document:
//! summary extraction (name and the first three numeric cells, read
//! positionally as total, h-index, i10-index) and histogram extraction
//! (year/count label pairs, paired positionally and truncated to the
//! shorter sequence).  Every error case of the closed taxonomy is pinned
//! to its exact trigger.

use vstd::prelude::*;
use crate::document::Document;
use crate::error::ScrapeError;
use crate::error::ScrapeErrorSpec;
use crate::numbers::digits_value;
use crate::numbers::is_digits;
use crate::numbers::parse_numeric;
use crate::record::AuthorInfo;
use crate::record::sorted_by_year;

verus! {

/// A cell's text parses as a numeric field: digits only, value in `usize`.
pub open spec fn cell_ok(c: Seq<char>) -> bool {
    is_digits(c) && digits_value(c) <= usize::MAX
}

/// The parsed value of a well-formed cell.
pub open spec fn cell_val(c: Seq<char>) -> usize
    recommends
        cell_ok(c),
{
    digits_value(c) as usize
}

/// Parsing every value cell in document order: all the values, or the
/// first cell whose text is not a valid integer.
pub open spec fn parse_cells(cells: Seq<Seq<char>>) -> Result<Seq<usize>, ScrapeErrorSpec>
    decreases cells.len(),
{
    if cells.len() == 0 {
        Ok(Seq::empty())
    } else if !cell_ok(cells.first()) {
        Err(ScrapeErrorSpec::ParseError(cells.first()))
    } else {
        match parse_cells(cells.drop_first()) {
            Ok(vs) => Ok(seq![cell_val(cells.first())] + vs),
            Err(e) => Err(e),
        }
    }
}

/// What summary extraction returns: the name element's text verbatim and
/// the first three parsed cell values as (total, h-index, i10-index), or
/// the first error in the fixed order of evaluation — absent table,
/// unparseable cell, too few cells, absent name.
pub open spec fn summary_model(
    summary_cells: Option<Seq<Seq<char>>>,
    name_text: Option<Seq<char>>,
) -> Result<(Seq<char>, usize, usize, usize), ScrapeErrorSpec> {
    match summary_cells {
        None => Err(ScrapeErrorSpec::TableNotFound),
        Some(cells) => match parse_cells(cells) {
            Err(e) => Err(e),
            Ok(vals) => if vals.len() < 3 {
                Err(ScrapeErrorSpec::InsufficientData(vals.len() as int))
            } else {
                match name_text {
                    None => Err(ScrapeErrorSpec::NameNotFound),
                    Some(nm) => Ok((nm, vals[0], vals[1], vals[2])),
                }
            },
        },
    }
}

/// Parsing the year/count label pairs positionally, truncated to the
/// shorter sequence: the parsed pairs in page order, or the first label
/// that is not a valid integer (year checked before count at each index).
pub open spec fn parse_pairs(years: Seq<Seq<char>>, counts: Seq<Seq<char>>) -> Result<
    Seq<(usize, usize)>,
    ScrapeErrorSpec,
>
    decreases years.len(),
{
    if years.len() == 0 || counts.len() == 0 {
        Ok(Seq::empty())
    } else if !cell_ok(years.first()) {
        Err(ScrapeErrorSpec::YearParseError(years.first()))
    } else if !cell_ok(counts.first()) {
        Err(ScrapeErrorSpec::CitationParseError(counts.first()))
    } else {
        match parse_pairs(years.drop_first(), counts.drop_first()) {
            Ok(ps) => Ok(seq![(cell_val(years.first()), cell_val(counts.first()))] + ps),
            Err(e) => Err(e),
        }
    }
}

/// Inserting one (year, count) entry into the sorted mapping: a new entry
/// at its sorted position, or a replaced count when the year is present.
pub open spec fn map_insert(m: Seq<(usize, usize)>, y: usize, c: usize) -> Seq<(usize, usize)>
    decreases m.len(),
{
    if m.len() == 0 {
        seq![(y, c)]
    } else if y < m.first().0 {
        seq![(y, c)] + m
    } else if y == m.first().0 {
        seq![(y, c)] + m.drop_first()
    } else {
        seq![m.first()] + map_insert(m.drop_first(), y, c)
    }
}

/// The mapping built by inserting each parsed pair in page order: later
/// pairs win on a repeated year.
pub open spec fn build_map(ps: Seq<(usize, usize)>) -> Seq<(usize, usize)>
    decreases ps.len(),
{
    if ps.len() == 0 {
        Seq::empty()
    } else {
        map_insert(build_map(ps.drop_last()), ps.last().0, ps.last().1)
    }
}

/// What histogram extraction returns: the sorted year-to-count mapping,
/// or the first error — absent container, or an unparseable label.
pub open spec fn hist_model(histogram: Option<(Seq<Seq<char>>, Seq<Seq<char>>)>) -> Result<
    Seq<(usize, usize)>,
    ScrapeErrorSpec,
> {
    match histogram {
        None => Err(ScrapeErrorSpec::TableNotFound),
        Some(h) => match parse_pairs(h.0, h.1) {
            Ok(ps) => Ok(build_map(ps)),
            Err(e) => Err(e),
        },
    }
}

/// What assembly returns for a located document: the full record's fields,
/// or the first error (summary extraction runs before histogram
/// extraction).
pub open spec fn record_model(
    summary_cells: Option<Seq<Seq<char>>>,
    name_text: Option<Seq<char>>,
    histogram: Option<(Seq<Seq<char>>, Seq<Seq<char>>)>,
) -> Result<(Seq<char>, usize, usize, usize, Seq<(usize, usize)>), ScrapeErrorSpec> {
    match summary_model(summary_cells, name_text) {
        Err(e) => Err(e),
        Ok((nm, total, h, i10)) => match hist_model(histogram) {
            Err(e) => Err(e),
            Ok(m) => Ok((nm, total, h, i10, m)),
        },
    }
}

/// Cell parsing stops at the first bad cell and reports its text.
proof fn lemma_parse_cells_err(cells: Seq<Seq<char>>, i: int)
    requires
        0 <= i < cells.len(),
        forall|j: int| 0 <= j < i ==> cell_ok(#[trigger] cells[j]),
        !cell_ok(cells[i]),
    ensures
        parse_cells(cells) == Err::<Seq<usize>, _>(ScrapeErrorSpec::ParseError(cells[i])),
    decreases i,
{
    if i == 0 {
    } else {
        assert(cell_ok(cells.first()));
        lemma_parse_cells_err(cells.drop_first(), i - 1);
        assert(cells.drop_first()[i - 1] == cells[i]);
    }
}

/// When every cell parses, cell parsing returns all the values in order.
proof fn lemma_parse_cells_ok(cells: Seq<Seq<char>>)
    requires
        forall|j: int| 0 <= j < cells.len() ==> cell_ok(#[trigger] cells[j]),
    ensures
        parse_cells(cells) == Ok::<_, ScrapeErrorSpec>(
            Seq::new(cells.len(), |j: int| cell_val(cells[j])),
        ),
    decreases cells.len(),
{
    if cells.len() == 0 {
        assert(Seq::new(cells.len(), |j: int| cell_val(cells[j])) =~= Seq::empty());
    } else {
        lemma_parse_cells_ok(cells.drop_first());
        assert(seq![cell_val(cells.first())] + Seq::new(
            cells.drop_first().len(),
            |j: int| cell_val(cells.drop_first()[j]),
        ) =~= Seq::new(cells.len(), |j: int| cell_val(cells[j])));
    }
}

/// Pair parsing stops at the first bad label: a bad year label at the
/// first failing index is reported as a year error.
proof fn lemma_parse_pairs_err_year(years: Seq<Seq<char>>, counts: Seq<Seq<char>>, i: int)
    requires
        0 <= i < years.len(),
        0 <= i < counts.len(),
        forall|j: int| 0 <= j < i ==> cell_ok(#[trigger] years[j]),
        forall|j: int| 0 <= j < i ==> cell_ok(#[trigger] counts[j]),
        !cell_ok(years[i]),
    ensures
        parse_pairs(years, counts) == Err::<Seq<(usize, usize)>, _>(
            ScrapeErrorSpec::YearParseError(years[i]),
        ),
    decreases i,
{
    if i == 0 {
    } else {
        lemma_parse_pairs_err_year(years.drop_first(), counts.drop_first(), i - 1);
        assert(years.drop_first()[i - 1] == years[i]);
    }
}

/// Pair parsing stops at the first bad label: a good year label but a bad
/// count label at the first failing index is reported as a count error.
proof fn lemma_parse_pairs_err_count(years: Seq<Seq<char>>, counts: Seq<Seq<char>>, i: int)
    requires
        0 <= i < years.len(),
        0 <= i < counts.len(),
        forall|j: int| 0 <= j <= i ==> cell_ok(#[trigger] years[j]),
        forall|j: int| 0 <= j < i ==> cell_ok(#[trigger] counts[j]),
        !cell_ok(counts[i]),
    ensures
        parse_pairs(years, counts) == Err::<Seq<(usize, usize)>, _>(
            ScrapeErrorSpec::CitationParseError(counts[i]),
        ),
    decreases i,
{
    if i == 0 {
    } else {
        lemma_parse_pairs_err_count(years.drop_first(), counts.drop_first(), i - 1);
        assert(counts.drop_first()[i - 1] == counts[i]);
    }
}

/// The number of pairs considered: the shorter of the two label sequences.
pub open spec fn pair_len(years: Seq<Seq<char>>, counts: Seq<Seq<char>>) -> int {
    if years.len() < counts.len() {
        years.len() as int
    } else {
        counts.len() as int
    }
}

/// Mismatched label sequences are not an error: when the first
/// `min(|years|, |counts|)` labels on both sides parse, pairing succeeds
/// and yields exactly that many pairs, in page order — the longer
/// sequence's tail is silently dropped.
pub proof fn lemma_parse_pairs_ok(years: Seq<Seq<char>>, counts: Seq<Seq<char>>)
    requires
        forall|j: int| 0 <= j < pair_len(years, counts) ==> cell_ok(#[trigger] years[j]),
        forall|j: int| 0 <= j < pair_len(years, counts) ==> cell_ok(#[trigger] counts[j]),
    ensures
        parse_pairs(years, counts) == Ok::<_, ScrapeErrorSpec>(
            Seq::new(
                pair_len(years, counts) as nat,
                |j: int| (cell_val(years[j]), cell_val(counts[j])),
            ),
        ),
    decreases years.len(),
{
    let n = pair_len(years, counts) as nat;
    if years.len() == 0 || counts.len() == 0 {
        assert(Seq::new(n, |j: int| (cell_val(years[j]), cell_val(counts[j]))) =~= Seq::empty());
    } else {
        lemma_parse_pairs_ok(years.drop_first(), counts.drop_first());
        let ys = years.drop_first();
        let cs = counts.drop_first();
        assert(seq![(cell_val(years.first()), cell_val(counts.first()))] + Seq::new(
            pair_len(ys, cs) as nat,
            |j: int| (cell_val(ys[j]), cell_val(cs[j])),
        ) =~= Seq::new(n, |j: int| (cell_val(years[j]), cell_val(counts[j]))));
    }
}

/// A year is present in the mapping.
pub open spec fn has_year(m: Seq<(usize, usize)>, y: usize) -> bool {
    exists|i: int| 0 <= i < m.len() && (#[trigger] m[i]).0 == y
}

/// Inserting keeps exactly the old years plus the inserted one.
proof fn lemma_map_insert_years(m: Seq<(usize, usize)>, y: usize, c: usize, z: usize)
    ensures
        has_year(map_insert(m, y, c), z) <==> (z == y || has_year(m, z)),
    decreases m.len(),
{
    let r = map_insert(m, y, c);
    if m.len() == 0 {
        assert(r[0] == (y, c));
        if has_year(r, z) {
            let i = choose|i: int| 0 <= i < r.len() && (#[trigger] r[i]).0 == z;
            assert(i == 0);
        }
    } else if y < m.first().0 {
        assert(r == seq![(y, c)] + m);
        assert(r[0] == (y, c));
        if has_year(m, z) {
            let i = choose|i: int| 0 <= i < m.len() && (#[trigger] m[i]).0 == z;
            assert(r[i + 1] == m[i]);
            assert(r[i + 1].0 == z);
        }
        if has_year(r, z) && z != y {
            let i = choose|i: int| 0 <= i < r.len() && (#[trigger] r[i]).0 == z;
            assert(i != 0);
            assert(r[i] == m[i - 1]);
            assert(m[i - 1].0 == z);
        }
    } else if y == m.first().0 {
        let md = m.drop_first();
        assert(r == seq![(y, c)] + md);
        assert(r[0] == (y, c));
        if has_year(m, z) && z != y {
            let i = choose|i: int| 0 <= i < m.len() && (#[trigger] m[i]).0 == z;
            assert(i != 0);
            assert(md[i - 1] == m[i]);
            assert(r[i] == md[i - 1]);
            assert(r[i].0 == z);
        }
        if has_year(r, z) && z != y {
            let i = choose|i: int| 0 <= i < r.len() && (#[trigger] r[i]).0 == z;
            assert(i != 0);
            assert(r[i] == md[i - 1]);
            assert(md[i - 1] == m[i]);
            assert(m[i].0 == z);
        }
    } else {
        let md = m.drop_first();
        let rr = map_insert(md, y, c);
        lemma_map_insert_years(md, y, c, z);
        assert(r == seq![m.first()] + rr);
        assert(r[0] == m.first());
        if z == y {
            let i = choose|i: int| 0 <= i < rr.len() && (#[trigger] rr[i]).0 == z;
            assert(r[i + 1] == rr[i]);
            assert(r[i + 1].0 == z);
        }
        if has_year(m, z) && z != y {
            let i = choose|i: int| 0 <= i < m.len() && (#[trigger] m[i]).0 == z;
            if i == 0 {
                assert(r[0].0 == z);
            } else {
                assert(md[i - 1] == m[i]);
                assert(has_year(md, z));
                let k = choose|k: int| 0 <= k < rr.len() && (#[trigger] rr[k]).0 == z;
                assert(r[k + 1] == rr[k]);
                assert(r[k + 1].0 == z);
            }
        }
        if has_year(r, z) && z != y {
            let i = choose|i: int| 0 <= i < r.len() && (#[trigger] r[i]).0 == z;
            if i == 0 {
                assert(m[0].0 == z);
            } else {
                assert(r[i] == rr[i - 1]);
                assert(has_year(rr, z));
                let k = choose|k: int| 0 <= k < md.len() && (#[trigger] md[k]).0 == z;
                assert(md[k] == m[k + 1]);
                assert(m[k + 1].0 == z);
            }
        }
    }
}

/// Inserting a fresh year grows the mapping by one entry; inserting a
/// present year only replaces its count.
proof fn lemma_map_insert_len(m: Seq<(usize, usize)>, y: usize, c: usize)
    requires
        sorted_by_year(m),
    ensures
        map_insert(m, y, c).len() == if has_year(m, y) {
            m.len()
        } else {
            m.len() + 1
        },
    decreases m.len(),
{
    if m.len() == 0 {
    } else if y < m.first().0 {
        if has_year(m, y) {
            let i = choose|i: int| 0 <= i < m.len() && (#[trigger] m[i]).0 == y;
            if i > 0 {
                assert(m[0].0 < m[i].0);
            }
            assert(false);
        }
    } else if y == m.first().0 {
        assert(m[0].0 == y);
    } else {
        assert(sorted_by_year(m.drop_first())) by {
            assert(forall|i: int, j: int|
                0 <= i < j < m.drop_first().len() ==> (#[trigger] m.drop_first()[i]).0 < (
                #[trigger] m.drop_first()[j]).0);
        }
        lemma_map_insert_len(m.drop_first(), y, c);
        let md = m.drop_first();
        if has_year(m, y) {
            let i = choose|i: int| 0 <= i < m.len() && (#[trigger] m[i]).0 == y;
            assert(i != 0);
            assert(md[i - 1].0 == y);
            assert(has_year(md, y));
        }
        if has_year(md, y) {
            let i = choose|i: int| 0 <= i < md.len() && (#[trigger] md[i]).0 == y;
            assert(m[i + 1].0 == y);
        }
    }
}

/// Inserting into a sorted mapping keeps it sorted.
proof fn lemma_map_insert_sorted(m: Seq<(usize, usize)>, y: usize, c: usize)
    requires
        sorted_by_year(m),
    ensures
        sorted_by_year(map_insert(m, y, c)),
    decreases m.len(),
{
    let r = map_insert(m, y, c);
    if m.len() == 0 {
    } else if y < m.first().0 {
        assert forall|i: int, j: int| 0 <= i < j < r.len() implies (#[trigger] r[i]).0 < (
        #[trigger] r[j]).0 by {
            if i > 0 {
                assert(r[i] == m[i - 1] && r[j] == m[j - 1]);
            } else {
                assert(r[j] == m[j - 1]);
                if j > 1 {
                    assert(m[0].0 < m[j - 1].0);
                }
            }
        }
    } else if y == m.first().0 {
        assert forall|i: int, j: int| 0 <= i < j < r.len() implies (#[trigger] r[i]).0 < (
        #[trigger] r[j]).0 by {
            if i > 0 {
                assert(r[i] == m[i] && r[j] == m[j]);
            } else {
                assert(r[j] == m[j]);
                assert(m[0].0 < m[j].0);
            }
        }
    } else {
        let md = m.drop_first();
        assert(sorted_by_year(md)) by {
            assert(forall|i: int, j: int|
                0 <= i < j < md.len() ==> (#[trigger] md[i]).0 < (#[trigger] md[j]).0);
        }
        lemma_map_insert_sorted(md, y, c);
        let rr = map_insert(md, y, c);
        assert forall|i: int, j: int| 0 <= i < j < r.len() implies (#[trigger] r[i]).0 < (
        #[trigger] r[j]).0 by {
            if i > 0 {
                assert(r[i] == rr[i - 1] && r[j] == rr[j - 1]);
            } else {
                assert(r[0] == m.first());
                assert(r[j] == rr[j - 1]);
                lemma_map_insert_years(md, y, c, rr[j - 1].0);
                if rr[j - 1].0 == y {
                } else {
                    let k = choose|k: int| 0 <= k < md.len() && (#[trigger] md[k]).0 == rr[j
                        - 1].0;
                    assert(m[k + 1].0 == rr[j - 1].0);
                    assert(m[0].0 < m[k + 1].0);
                }
            }
        }
    }
}

/// The mapping built from any pair sequence is sorted ascending by year,
/// with one entry per year.
pub proof fn lemma_build_map_sorted(ps: Seq<(usize, usize)>)
    ensures
        sorted_by_year(build_map(ps)),
    decreases ps.len(),
{
    if ps.len() == 0 {
    } else {
        lemma_build_map_sorted(ps.drop_last());
        lemma_map_insert_sorted(build_map(ps.drop_last()), ps.last().0, ps.last().1);
    }
}

/// The mapping's years are exactly the years of the pair sequence.
proof fn lemma_build_map_years(ps: Seq<(usize, usize)>, z: usize)
    ensures
        has_year(build_map(ps), z) <==> exists|i: int|
            0 <= i < ps.len() && (#[trigger] ps[i]).0 == z,
    decreases ps.len(),
{
    if ps.len() == 0 {
    } else {
        lemma_build_map_years(ps.drop_last(), z);
        lemma_map_insert_years(build_map(ps.drop_last()), ps.last().0, ps.last().1, z);
        if exists|i: int| 0 <= i < ps.len() && (#[trigger] ps[i]).0 == z {
            let i = choose|i: int| 0 <= i < ps.len() && (#[trigger] ps[i]).0 == z;
            if i < ps.len() - 1 {
                assert(ps.drop_last()[i].0 == z);
            }
        }
        if exists|i: int| 0 <= i < ps.drop_last().len() && (#[trigger] ps.drop_last()[i]).0 == z {
            let i = choose|i: int|
                0 <= i < ps.drop_last().len() && (#[trigger] ps.drop_last()[i]).0 == z;
            assert(ps[i].0 == z);
        }
    }
}

/// Inserting at the first position whose year is not below `y` is the
/// recursive insertion: a replacement when that year is `y`, a new entry
/// otherwise.
proof fn lemma_map_insert_at(m: Seq<(usize, usize)>, y: usize, c: usize, k: int)
    requires
        sorted_by_year(m),
        0 <= k <= m.len(),
        forall|j: int| 0 <= j < k ==> (#[trigger] m[j]).0 < y,
        k < m.len() ==> m[k].0 >= y,
    ensures
        map_insert(m, y, c) == if k < m.len() && m[k].0 == y {
            m.update(k, (y, c))
        } else {
            m.insert(k, (y, c))
        },
    decreases m.len(),
{
    if m.len() == 0 {
        assert(map_insert(m, y, c) =~= m.insert(0, (y, c)));
    } else if k == 0 {
        if m[0].0 == y {
            assert(map_insert(m, y, c) =~= m.update(0, (y, c)));
        } else {
            assert(y < m.first().0);
            assert(map_insert(m, y, c) =~= m.insert(0, (y, c)));
        }
    } else {
        let md = m.drop_first();
        assert(m[0].0 < y);
        assert(sorted_by_year(md)) by {
            assert(forall|i: int, j: int|
                0 <= i < j < md.len() ==> (#[trigger] md[i]).0 < (#[trigger] md[j]).0);
        }
        assert(forall|j: int| 0 <= j < k - 1 ==> (#[trigger] md[j]).0 < y);
        lemma_map_insert_at(md, y, c, k - 1);
        if k < m.len() && m[k].0 == y {
            assert(md[k - 1].0 == y);
            assert(seq![m.first()] + md.update(k - 1, (y, c)) =~= m.update(k, (y, c)));
        } else {
            assert(seq![m.first()] + md.insert(k - 1, (y, c)) =~= m.insert(k, (y, c)));
        }
    }
}

/// When the years of the pair sequence are pairwise distinct, the mapping
/// has exactly one entry per pair: its length is the number of pairs.
pub proof fn lemma_build_map_len(ps: Seq<(usize, usize)>)
    requires
        forall|i: int, j: int| 0 <= i < j < ps.len() ==> (#[trigger] ps[i]).0 != (
        #[trigger] ps[j]).0,
    ensures
        build_map(ps).len() == ps.len(),
    decreases ps.len(),
{
    if ps.len() == 0 {
    } else {
        let pd = ps.drop_last();
        assert(forall|i: int, j: int|
            0 <= i < j < pd.len() ==> (#[trigger] pd[i]).0 != (#[trigger] pd[j]).0);
        lemma_build_map_len(pd);
        lemma_build_map_sorted(pd);
        lemma_map_insert_len(build_map(pd), ps.last().0, ps.last().1);
        if has_year(build_map(pd), ps.last().0) {
            lemma_build_map_years(pd, ps.last().0);
            let i = choose|i: int| 0 <= i < pd.len() && (#[trigger] pd[i]).0 == ps.last().0;
            assert(ps[i].0 == ps[ps.len() - 1].0);
            assert(false);
        }
    }
}

/// The mapping never has more entries than there were pairs.
proof fn lemma_build_map_len_le(ps: Seq<(usize, usize)>)
    ensures
        build_map(ps).len() <= ps.len(),
    decreases ps.len(),
{
    if ps.len() == 0 {
    } else {
        lemma_build_map_len_le(ps.drop_last());
        lemma_build_map_sorted(ps.drop_last());
        lemma_map_insert_len(build_map(ps.drop_last()), ps.last().0, ps.last().1);
    }
}

/// For every well-formed document — summary table present, all of its
/// three or more value cells parseable, name element present — summary
/// extraction succeeds with the name element's text verbatim and the first
/// three cell values read positionally as (total, h-index, i10-index).
pub proof fn lemma_summary_success(cells: Seq<Seq<char>>, nm: Seq<char>)
    requires
        cells.len() >= 3,
        forall|j: int| 0 <= j < cells.len() ==> cell_ok(#[trigger] cells[j]),
    ensures
        summary_model(Some(cells), Some(nm)) == Ok::<_, ScrapeErrorSpec>(
            (nm, cell_val(cells[0]), cell_val(cells[1]), cell_val(cells[2])),
        ),
{
    lemma_parse_cells_ok(cells);
}

/// A document with no summary table fails summary extraction with
/// `TableNotFound`, whatever else it holds.
pub proof fn lemma_summary_table_absent(name_text: Option<Seq<char>>)
    ensures
        summary_model(None, name_text) == Err::<(Seq<char>, usize, usize, usize), _>(
            ScrapeErrorSpec::TableNotFound,
        ),
{
}

/// A document whose summary table parses to three or more values but
/// whose name element is absent fails with `NameNotFound`.
pub proof fn lemma_summary_name_absent(cells: Seq<Seq<char>>)
    requires
        cells.len() >= 3,
        forall|j: int| 0 <= j < cells.len() ==> cell_ok(#[trigger] cells[j]),
    ensures
        summary_model(Some(cells), None) == Err::<(Seq<char>, usize, usize, usize), _>(
            ScrapeErrorSpec::NameNotFound,
        ),
{
    lemma_parse_cells_ok(cells);
}

/// With fewer than three value cells, all of them parseable, summary
/// extraction fails with `InsufficientData` carrying the exact number of
/// values actually parsed.
pub proof fn lemma_summary_insufficient(cells: Seq<Seq<char>>, name_text: Option<Seq<char>>)
    requires
        cells.len() < 3,
        forall|j: int| 0 <= j < cells.len() ==> cell_ok(#[trigger] cells[j]),
    ensures
        summary_model(Some(cells), name_text) == Err::<(Seq<char>, usize, usize, usize), _>(
            ScrapeErrorSpec::InsufficientData(cells.len() as int),
        ),
{
    lemma_parse_cells_ok(cells);
}

/// For every histogram container whose first `min(|years|, |counts|)`
/// labels parse on both sides, extraction succeeds — a length mismatch is
/// not an error, the longer sequence is silently truncated — and the
/// mapping is sorted ascending by year with at most one entry per pair.
/// When the parsed years are pairwise distinct (every real chart), the
/// mapping has exactly `min(|years|, |counts|)` entries.
pub proof fn lemma_histogram_success(years: Seq<Seq<char>>, counts: Seq<Seq<char>>)
    requires
        forall|j: int| 0 <= j < pair_len(years, counts) ==> cell_ok(#[trigger] years[j]),
        forall|j: int| 0 <= j < pair_len(years, counts) ==> cell_ok(#[trigger] counts[j]),
    ensures
        hist_model(Some((years, counts))) matches Ok(m) && sorted_by_year(m) && m.len()
            <= pair_len(years, counts),
        (forall|i: int, j: int|
            0 <= i < j < pair_len(years, counts) ==> cell_val(#[trigger] years[i]) != cell_val(
                #[trigger] years[j],
            )) ==> (hist_model(Some((years, counts))) matches Ok(m) && m.len() == pair_len(
            years,
            counts,
        )),
{
    lemma_parse_pairs_ok(years, counts);
    let n = pair_len(years, counts) as nat;
    let ps = Seq::new(n, |j: int| (cell_val(years[j]), cell_val(counts[j])));
    lemma_build_map_sorted(ps);
    lemma_build_map_len_le(ps);
    if forall|i: int, j: int|
        0 <= i < j < pair_len(years, counts) ==> cell_val(#[trigger] years[i]) != cell_val(
            #[trigger] years[j],
        ) {
        assert(forall|i: int, j: int|
            0 <= i < j < ps.len() ==> (#[trigger] ps[i]).0 != (#[trigger] ps[j]).0);
        lemma_build_map_len(ps);
    }
}

/// Extracts the author's main citation information: the name element's
/// text verbatim, and the first three summary values read positionally as
/// (total citations, h-index, i10-index).
///
/// The result is exactly [`summary_model`]: an absent table is
/// `TableNotFound`; an unparseable value cell is `ParseError` with that
/// cell's text; fewer than three values is `InsufficientData` with the
/// count found; an absent name element is `NameNotFound` — checked in that
/// fixed order.
pub fn extract_summary(doc: &Document) -> (r: Result<(String, usize, usize, usize), ScrapeError>)
    ensures
        match summary_model(doc.cells_view(), doc.name_view()) {
            Ok(f) => r matches Ok(v) && v.0@ == f.0 && v.1 == f.1 && v.2 == f.2 && v.3 == f.3,
            Err(e) => r matches Err(err) && err@ == e,
        },
{
    let cells = match &doc.summary_cells {
        None => {
            return Err(ScrapeError::TableNotFound);
        },
        Some(cells) => cells,
    };
    let ghost cv = cells.deep_view();
    proof {
        assert(doc.cells_view() == Some(cv));
    }
    let n = cells.len();
    let mut vals: Vec<usize> = Vec::new();
    let mut i: usize = 0;
    while i < n
        invariant
            n == cells@.len(),
            cv == cells.deep_view(),
            doc.cells_view() == Some(cv),
            0 <= i <= n,
            forall|j: int| 0 <= j < i ==> cell_ok(#[trigger] cv[j]),
            vals@.len() == i,
            forall|j: int| 0 <= j < i ==> vals@[j] == cell_val(#[trigger] cv[j]),
        decreases n - i,
    {
        assert(cv[i as int] == cells@[i as int]@);
        match parse_numeric(cells[i].as_str()) {
            Some(v) => {
                vals.push(v);
            },
            None => {
                proof {
                    lemma_parse_cells_err(cv, i as int);
                }
                return Err(ScrapeError::ParseError(cells[i].clone()));
            },
        }
        i = i + 1;
    }
    proof {
        lemma_parse_cells_ok(cv);
        assert(vals@ =~= Seq::new(cv.len(), |j: int| cell_val(cv[j])));
    }
    if vals.len() < 3 {
        return Err(ScrapeError::InsufficientData(vals.len()));
    }
    let name = match &doc.name_text {
        None => {
            return Err(ScrapeError::NameNotFound);
        },
        Some(nm) => nm.clone(),
    };
    Ok((name, vals[0], vals[1], vals[2]))
}

/// Inserts one (year, count) entry into the sorted mapping, replacing the
/// count when the year is already present.
fn insert_year(map: &mut Vec<(usize, usize)>, y: usize, c: usize)
    requires
        sorted_by_year(old(map)@),
    ensures
        final(map)@ == map_insert(old(map)@, y, c),
{
    let n = map.len();
    let mut k: usize = 0;
    while k < n && map[k].0 < y
        invariant
            map@ == old(map)@,
            n == map@.len(),
            0 <= k <= n,
            forall|j: int| 0 <= j < k ==> (#[trigger] map@[j]).0 < y,
        decreases n - k,
    {
        k = k + 1;
    }
    proof {
        lemma_map_insert_at(map@, y, c, k as int);
    }
    if k < n && map[k].0 == y {
        map.set(k, (y, c));
    } else {
        map.insert(k, (y, c));
    }
}

/// Extracts the yearly citation counts: year and count labels paired
/// positionally, truncated to the shorter sequence, collected into a
/// mapping sorted ascending by year (a repeated year keeps its last
/// count).
///
/// The result is exactly [`hist_model`]: an absent histogram container is
/// `TableNotFound` (absence of either chart region is treated identically
/// to the summary table's absence); an unparseable year label is
/// `YearParseError` and an unparseable count label `CitationParseError`,
/// each carrying the offending text, at the first failing pair.
pub fn extract_histogram(doc: &Document) -> (r: Result<Vec<(usize, usize)>, ScrapeError>)
    ensures
        match hist_model(doc.hist_view()) {
            Ok(m) => r matches Ok(v) && v@ == m && sorted_by_year(v@),
            Err(e) => r matches Err(err) && err@ == e,
        },
{
    let hist = match &doc.histogram {
        None => {
            return Err(ScrapeError::TableNotFound);
        },
        Some(h) => h,
    };
    let ghost yv = hist.years.deep_view();
    let ghost cv = hist.counts.deep_view();
    proof {
        assert(doc.hist_view() == Some((yv, cv)));
    }
    let n = if hist.years.len() < hist.counts.len() {
        hist.years.len()
    } else {
        hist.counts.len()
    };
    proof {
        assert(n as int == pair_len(yv, cv));
    }
    let mut map: Vec<(usize, usize)> = Vec::new();
    let mut i: usize = 0;
    while i < n
        invariant
            yv == hist.years.deep_view(),
            cv == hist.counts.deep_view(),
            doc.hist_view() == Some((yv, cv)),
            n as int == pair_len(yv, cv),
            n <= hist.years@.len(),
            n <= hist.counts@.len(),
            0 <= i <= n,
            forall|j: int| 0 <= j < i ==> cell_ok(#[trigger] yv[j]),
            forall|j: int| 0 <= j < i ==> cell_ok(#[trigger] cv[j]),
            map@ == build_map(Seq::new(i as nat, |j: int| (cell_val(yv[j]), cell_val(cv[j])))),
            sorted_by_year(map@),
        decreases n - i,
    {
        assert(yv[i as int] == hist.years@[i as int]@);
        assert(cv[i as int] == hist.counts@[i as int]@);
        let y = match parse_numeric(hist.years[i].as_str()) {
            Some(v) => v,
            None => {
                proof {
                    lemma_parse_pairs_err_year(yv, cv, i as int);
                }
                return Err(ScrapeError::YearParseError(hist.years[i].clone()));
            },
        };
        let c = match parse_numeric(hist.counts[i].as_str()) {
            Some(v) => v,
            None => {
                proof {
                    lemma_parse_pairs_err_count(yv, cv, i as int);
                }
                return Err(ScrapeError::CitationParseError(hist.counts[i].clone()));
            },
        };
        let ghost before = map@;
        insert_year(&mut map, y, c);
        proof {
            let prefix = Seq::new(i as nat, |j: int| (cell_val(yv[j]), cell_val(cv[j])));
            let prefix1 = Seq::new((i + 1) as nat, |j: int| (cell_val(yv[j]), cell_val(cv[j])));
            assert(prefix1.drop_last() =~= prefix);
            assert(prefix1.last() == (cell_val(yv[i as int]), cell_val(cv[i as int])));
            assert(map@ == map_insert(build_map(prefix), y, c));
            lemma_map_insert_sorted(before, y, c);
        }
        i = i + 1;
    }
    proof {
        lemma_parse_pairs_ok(yv, cv);
    }
    Ok(map)
}

/// Assembles the one complete record for a located document, or reports
/// the first error encountered: summary extraction runs first, then
/// histogram extraction, short-circuiting on failure.  There is no partial
/// record.
pub fn assemble(doc: &Document) -> (r: Result<AuthorInfo, ScrapeError>)
    ensures
        match record_model(doc.cells_view(), doc.name_view(), doc.hist_view()) {
            Ok(f) => r matches Ok(info) && info.name@ == f.0 && info.total == f.1 && info.h_index
                == f.2 && info.i10_index == f.3 && info.yearly_citations@ == f.4 && info.wf(),
            Err(e) => r matches Err(err) && err@ == e,
        },
{
    let (name, total, h_index, i10_index) = match extract_summary(doc) {
        Ok(t) => t,
        Err(e) => {
            return Err(e);
        },
    };
    let yearly_citations = match extract_histogram(doc) {
        Ok(m) => m,
        Err(e) => {
            return Err(e);
        },
    };
    Ok(AuthorInfo { name, total, h_index, i10_index, yearly_citations })
}

} // verus!
