//! The trusted boundary around the `scraper` crate: structural queries over
//! parsed markup, handed back as plain strings.
//!
//! The extractor never navigates the HTML tree itself. It asks for the
//! header cells and for each body row's name element and data cells, all as
//! inner-HTML strings in document order, and works on those. What the
//! `scraper` crate returns for a given markup text is a function of that
//! text alone, so the two queries below are named by uninterpreted spec
//! functions, and every contract downstream speaks of those names.

use vstd::prelude::*;

verus! {

/// The inner HTML of every element matching `thead th` in the document
/// parsed from `markup`, in document order.
pub uninterp spec fn header_cells_of(markup: Seq<char>) -> Seq<Seq<char>>;

/// For every element matching `tbody tr` in the document parsed from
/// `markup`, in document order: the inner HTML of its first descendant
/// matching `th strong` (absent if the row has none), and the inner HTML
/// of each of its descendants matching `td`, in document order.
pub uninterp spec fn raw_rows_of(markup: Seq<char>) -> Seq<(Option<Seq<char>>, Seq<Seq<char>>)>;

/// One body row as the structural queries hand it back: the raw inner HTML
/// of its name element, if present, and of its data cells.
pub struct RawRow {
    pub name: Option<String>,
    pub cells: Vec<String>,
}

impl View for RawRow {
    type V = (Option<Seq<char>>, Seq<Seq<char>>);

    open spec fn view(&self) -> Self::V {
        (
            match self.name {
                Option::Some(s) => Option::Some(s@),
                Option::None => Option::None,
            },
            self.cells.deep_view(),
        )
    }
}

impl DeepView for RawRow {
    type V = (Option<Seq<char>>, Seq<Seq<char>>);

    open spec fn deep_view(&self) -> Self::V {
        self@
    }
}

/// Relies on scraper's `Html::parse_document`, `Selector::parse` and the
/// `Select` iterator: returns the inner HTML of every `thead th` element,
/// in document order. The fixed selector is known-valid, so the parse of
/// it cannot fail.
#[verifier::external_body]
pub(crate) fn select_header_cells(markup: &str) -> (r: Vec<String>)
    ensures
        r.deep_view() == header_cells_of(markup@),
{
    let document = scraper::Html::parse_document(markup);
    let selector = scraper::Selector::parse("thead th").unwrap();
    let mut out = Vec::new();
    for element in document.select(&selector) {
        out.push(element.inner_html());
    }
    out
}

/// Relies on scraper's `Html::parse_document`, `Selector::parse` and the
/// `Select` iterator: returns, for every `tbody tr` element in document
/// order, the inner HTML of its first `th strong` descendant and of each
/// `td` descendant. The fixed selectors are known-valid, so the parses of
/// them cannot fail.
#[verifier::external_body]
pub(crate) fn select_rows(markup: &str) -> (r: Vec<RawRow>)
    ensures
        r.deep_view() == raw_rows_of(markup@),
{
    let document = scraper::Html::parse_document(markup);
    let row_selector = scraper::Selector::parse("tbody tr").unwrap();
    let name_selector = scraper::Selector::parse("th strong").unwrap();
    let cell_selector = scraper::Selector::parse("td").unwrap();
    let mut out = Vec::new();
    for row in document.select(&row_selector) {
        let name = row.select(&name_selector).next().map(|e| e.inner_html());
        let cells = row.select(&cell_selector).map(|c| c.inner_html()).collect();
        out.push(RawRow { name, cells });
    }
    out
}

} // verus!
