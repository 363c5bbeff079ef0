//! The extractor: turns raw table markup into a flat, ordered list of
//! (year, name, date) records, tolerating irregular markup by dropping
//! malformed rows rather than failing.

use vstd::prelude::*;
use vstd::string::StringExecFns;

use crate::dom::{header_cells_of, raw_rows_of, select_header_cells, select_rows, RawRow};
use crate::errors::ScraperError;
use crate::text::{norm_cell, norm_name, normalize_cell, normalize_name, trim_sp, trim_text};

verus! {

/// One extracted record: an event name mapped to a date text under a year
/// column. Duplicates are legal and encounter order is preserved.
#[derive(Debug)]
pub struct Holiday {
    pub year: String,
    pub date: String,
    pub name: String,
}

/// The mathematical content of a [`Holiday`].
pub struct HolidayView {
    pub year: Seq<char>,
    pub date: Seq<char>,
    pub name: Seq<char>,
}

impl View for Holiday {
    type V = HolidayView;

    open spec fn view(&self) -> HolidayView {
        HolidayView { year: self.year@, date: self.date@, name: self.name@ }
    }
}

impl DeepView for Holiday {
    type V = HolidayView;

    open spec fn deep_view(&self) -> HolidayView {
        self@
    }
}

/// The year labels: every header cell after the first (which is the
/// name-column label), in document order, trimmed.
pub open spec fn years_of(markup: Seq<char>) -> Seq<Seq<char>> {
    let cells = header_cells_of(markup);
    if cells.len() == 0 {
        Seq::empty()
    } else {
        cells.skip(1).map_values(|c: Seq<char>| trim_sp(c))
    }
}

/// The records one body row contributes: none when its name element is
/// absent; otherwise one per (data cell, year label) pair, walked in
/// lockstep and stopping at the shorter sequence.
pub open spec fn row_records(
    row: (Option<Seq<char>>, Seq<Seq<char>>),
    years: Seq<Seq<char>>,
) -> Seq<HolidayView> {
    match row.0 {
        Option::Some(raw_name) => Seq::new(
            vstd::math::min(row.1.len() as int, years.len() as int) as nat,
            |i: int|
                HolidayView {
                    year: years[i],
                    date: norm_cell(row.1[i]),
                    name: norm_name(raw_name),
                },
        ),
        Option::None => Seq::empty(),
    }
}

/// The records of a sequence of body rows, row by row, in document order.
pub open spec fn rows_records(
    rows: Seq<(Option<Seq<char>>, Seq<Seq<char>>)>,
    years: Seq<Seq<char>>,
) -> Seq<HolidayView>
    decreases rows.len(),
{
    if rows.len() == 0 {
        Seq::empty()
    } else {
        rows_records(rows.drop_last(), years) + row_records(rows.last(), years)
    }
}

/// Every record extracted from `markup`, in document order.
pub open spec fn records_of(markup: Seq<char>) -> Seq<HolidayView> {
    rows_records(raw_rows_of(markup), years_of(markup))
}

/// A row with a present name element contributes exactly
/// `min(data cells, year labels)` records, and the record at each position
/// carries the year label of that position.
pub proof fn lemma_row_record_count(
    row: (Option<Seq<char>>, Seq<Seq<char>>),
    years: Seq<Seq<char>>,
)
    requires
        row.0 is Some,
    ensures
        row_records(row, years).len() == vstd::math::min(
            row.1.len() as int,
            years.len() as int,
        ),
        forall|i: int|
            0 <= i < row_records(row, years).len() ==> row_records(row, years)[i].year
                == years[i],
{
}

/// A row lacking the name element contributes no record at all, regardless
/// of its data cells.
pub proof fn lemma_row_without_name(
    row: (Option<Seq<char>>, Seq<Seq<char>>),
    years: Seq<Seq<char>>,
)
    requires
        row.0 is None,
    ensures
        row_records(row, years).len() == 0,
{
}

/// What a caller displays for one record.
pub open spec fn report_line(h: HolidayView) -> Seq<char> {
    "Year: "@ + h.year + ", Holiday: "@ + h.name + ", Date: "@ + h.date
}

/// Holds raw table markup and the records extracted from it.
pub struct HolidayProcessor {
    pub raw_html: String,
    pub holidays: Vec<Holiday>,
}

impl HolidayProcessor {
    /// A processor over the given markup, with no records extracted yet.
    pub fn new(html: String) -> (r: Self)
        ensures
            r.raw_html@ == html@,
            r.holidays.deep_view() == Seq::<HolidayView>::empty(),
    {
        let r = Self { raw_html: html, holidays: Vec::new() };
        proof {
            assert(r.holidays.deep_view() =~= Seq::<HolidayView>::empty());
        }
        r
    }

    /// Extract every record of the markup, in document order, and append
    /// them to `holidays`. Malformed input is never an error: rows without
    /// a name element are dropped, and the cell/year walk stops at the
    /// shorter of the two sequences.
    pub fn run(&mut self) -> (r: Result<(), ScraperError>)
        ensures
            r is Ok,
            final(self).raw_html@ == old(self).raw_html@,
            final(self).holidays.deep_view() == old(self).holidays.deep_view() + records_of(
                old(self).raw_html@,
            ),
    {
        let ghost m0 = self.raw_html@;
        let ghost h0 = self.holidays.deep_view();

        let cells = select_header_cells(self.raw_html.as_str());
        let mut years: Vec<String> = Vec::new();
        let mut i: usize = 1;
        proof {
            assert(years.deep_view() =~= Seq::<Seq<char>>::empty());
            if cells@.len() > 0 {
                assert(cells.deep_view().subrange(1, 1).map_values(|c: Seq<char>| trim_sp(c))
                    =~= Seq::<Seq<char>>::empty());
            }
        }
        while i < cells.len()
            invariant
                1 <= i,
                cells@.len() == 0 ==> i == 1 && years.deep_view() == Seq::<Seq<char>>::empty(),
                cells@.len() > 0 ==> i <= cells@.len() && years.deep_view()
                    == cells.deep_view().subrange(1, i as int).map_values(
                    |c: Seq<char>| trim_sp(c),
                ),
            decreases cells@.len() - i,
        {
            let y = trim_text(cells[i].as_str());
            let ghost ydv = years.deep_view();
            years.push(y);
            proof {
                let dv = cells.deep_view();
                assert(years.deep_view() =~= ydv.push(trim_sp(dv[i as int])));
                assert(dv.subrange(1, i as int + 1).map_values(|c: Seq<char>| trim_sp(c))
                    =~= ydv.push(trim_sp(dv[i as int])));
            }
            i = i + 1;
        }
        proof {
            let dv = cells.deep_view();
            if cells@.len() > 0 {
                assert(dv.subrange(1, i as int) =~= dv.skip(1));
            }
            assert(years.deep_view() =~= years_of(m0));
        }

        let rows = select_rows(self.raw_html.as_str());
        let mut ri: usize = 0;
        proof {
            assert(rows.deep_view().take(0) =~= Seq::<(Option<Seq<char>>, Seq<Seq<char>>)>::empty());
            assert(h0 + rows_records(rows.deep_view().take(0), years.deep_view()) =~= h0);
        }
        while ri < rows.len()
            invariant
                ri <= rows@.len(),
                self.holidays.deep_view() == h0 + rows_records(
                    rows.deep_view().take(ri as int),
                    years.deep_view(),
                ),
                self.raw_html@ == m0,
            decreases rows@.len() - ri,
        {
            let row = &rows[ri];
            proof {
                assert(rows.deep_view()[ri as int] == row.deep_view());
            }
            match &row.name {
                Some(raw) => {
                    let hname = normalize_name(raw.as_str());
                    let n: usize = if row.cells.len() < years.len() {
                        row.cells.len()
                    } else {
                        years.len()
                    };
                    let ghost rowv = rows.deep_view()[ri as int];
                    let ghost yv = years.deep_view();
                    let ghost nv = raw@;
                    proof {
                        assert(rowv.0 == Option::Some(nv));
                        assert(rowv.1 == row.cells.deep_view());
                        assert(row_records(rowv, yv).take(0)
                            =~= Seq::<HolidayView>::empty());
                        assert(self.holidays.deep_view() + Seq::<HolidayView>::empty()
                            =~= self.holidays.deep_view());
                    }
                    let mut j: usize = 0;
                    while j < n
                        invariant
                            j <= n,
                            ri < rows@.len(),
                            rowv == rows.deep_view()[ri as int],
                            yv == years.deep_view(),
                            rowv.0 == Option::Some(nv),
                            hname@ == norm_name(nv),
                            rowv.1 == row.cells.deep_view(),
                            n as int == vstd::math::min(rowv.1.len() as int, yv.len() as int),
                            self.holidays.deep_view() == h0 + rows_records(
                                rows.deep_view().take(ri as int),
                                yv,
                            ) + row_records(rowv, yv).take(j as int),
                            self.raw_html@ == m0,
                        decreases n - j,
                    {
                        let y = years[j].clone();
                        let d = normalize_cell(row.cells[j].as_str());
                        let h = Holiday { year: y, date: d, name: hname.clone() };
                        proof {
                            assert(h@ == row_records(rowv, yv)[j as int]);
                        }
                        let ghost hdv = self.holidays.deep_view();
                        self.holidays.push(h);
                        proof {
                            assert(self.holidays.deep_view() =~= hdv.push(
                                row_records(rowv, yv)[j as int],
                            ));
                            assert(hdv.push(row_records(rowv, yv)[j as int]) =~= h0
                                + rows_records(rows.deep_view().take(ri as int), yv)
                                + row_records(rowv, yv).take(j as int + 1));
                        }
                        j = j + 1;
                    }
                    proof {
                        let rdv = rows.deep_view();
                        assert(row_records(rowv, yv).take(n as int) =~= row_records(rowv, yv));
                        assert(rdv.take(ri as int + 1).drop_last() =~= rdv.take(ri as int));
                        assert(rdv.take(ri as int + 1).last() == rdv[ri as int]);
                        assert(rows_records(rdv.take(ri as int + 1), yv) == rows_records(
                            rdv.take(ri as int),
                            yv,
                        ) + row_records(rowv, yv));
                        assert(h0 + rows_records(rdv.take(ri as int), yv) + row_records(rowv, yv)
                            =~= h0 + rows_records(rdv.take(ri as int + 1), yv));
                    }
                },
                None => {
                    proof {
                        let rdv = rows.deep_view();
                        let yv = years.deep_view();
                        assert(rdv[ri as int].0 is None);
                        assert(row_records(rdv[ri as int], yv) =~= Seq::<HolidayView>::empty());
                        assert(rdv.take(ri as int + 1).drop_last() =~= rdv.take(ri as int));
                        assert(rdv.take(ri as int + 1).last() == rdv[ri as int]);
                        assert(rows_records(rdv.take(ri as int + 1), yv) =~= rows_records(
                            rdv.take(ri as int),
                            yv,
                        ));
                    }
                },
            }
            ri = ri + 1;
        }
        proof {
            assert(rows.deep_view().take(rows@.len() as int) =~= rows.deep_view());
        }
        Ok(())
    }

    /// Render one display line per extracted record, in order; the caller
    /// is the one that prints them.
    pub fn pretty_print(&self) -> (r: Vec<String>)
        ensures
            r.deep_view().len() == self.holidays.deep_view().len(),
            forall|i: int|
                0 <= i < r.deep_view().len() ==> r.deep_view()[i] == report_line(
                    self.holidays.deep_view()[i],
                ),
    {
        let mut lines: Vec<String> = Vec::new();
        let mut i: usize = 0;
        while i < self.holidays.len()
            invariant
                i <= self.holidays@.len(),
                lines.deep_view().len() == i,
                forall|k: int|
                    0 <= k < i ==> lines.deep_view()[k] == report_line(
                        self.holidays.deep_view()[k],
                    ),
            decreases self.holidays@.len() - i,
        {
            let h = &self.holidays[i];
            let mut line = "Year: ".to_owned();
            line.append(h.year.as_str());
            line.append(", Holiday: ");
            line.append(h.name.as_str());
            line.append(", Date: ");
            line.append(h.date.as_str());
            let ghost lv = line@;
            let ghost ldv = lines.deep_view();
            lines.push(line);
            proof {
                assert(lines.deep_view() =~= ldv.push(lv));
                assert(lv == report_line(self.holidays.deep_view()[i as int]));
            }
            i = i + 1;
        }
        lines
    }
}

} // verus!
