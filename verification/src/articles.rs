//! Parsing table rows of the news overview page into article records.
//!
//! A raw row holds, as plain values, what the parser reads from one
//! `tbody > tr` fragment: for each `td` cell its text nodes in order, and
//! for each embedded `a` element its text nodes and optional `href`
//! attribute.  Producing raw rows from markup is the caller's concern;
//! everything from a raw row to an article record is verified here.

use vstd::prelude::*;

use crate::datetime::{date_of_str, parse_date, valid_date_str, Timestamp};
use crate::text::{join_with, join_with_sep};

verus! {

use vstd::string::*;

/// An `a` element of a cell: its text nodes and its `href`, if any.
#[derive(Debug)]
pub struct RawLink {
    pub text_parts: Vec<String>,
    pub href: Option<String>,
}

/// A `td` cell: its text nodes, and the `a` elements it contains.
#[derive(Debug)]
pub struct RawCell {
    pub text_parts: Vec<String>,
    pub links: Vec<RawLink>,
}

/// A `tbody > tr` row: its cells in order.
#[derive(Debug)]
pub struct RawRow {
    pub cells: Vec<RawCell>,
}

/// A news article: publish date (midnight UTC), title, absolute link.
#[derive(Debug, PartialEq, Eq)]
pub struct NewsArticle {
    pub date: Timestamp,
    pub title: String,
    pub link: String,
}

/// The mathematical content of a [`NewsArticle`].
pub ghost struct ArticleModel {
    pub date: Timestamp,
    pub title: Seq<char>,
    pub link: Seq<char>,
}

impl NewsArticle {
    pub open spec fn model(self) -> ArticleModel {
        ArticleModel { date: self.date, title: self.title@, link: self.link@ }
    }

    /// A copy whose content equals this article's.
    pub fn duplicate(&self) -> (r: NewsArticle)
        ensures
            r.model() == self.model(),
    {
        NewsArticle { date: self.date, title: self.title.clone(), link: self.link.clone() }
    }
}

#[derive(Clone, Copy, Debug, PartialEq, Eq, Structural)]
pub enum ParseError {
    /// Fewer than two cells in the row.
    RowTooShort,
    /// The first cell's text is not a `YYYY-MM-DD` date.
    BadDate,
    /// The second cell contains no `a` element.
    MissingLink,
    /// The second cell's first `a` element has no `href` attribute.
    MissingHref,
}

/// The base against which a row's relative link is resolved.
pub open spec fn link_base() -> Seq<char> {
    "https://archlinux.org"@
}

/// The first cell's text nodes, concatenated.
pub open spec fn date_text(row: RawRow) -> Seq<char> {
    join_with(row.cells@[0].text_parts.deep_view(), Seq::empty())
}

/// What parsing a raw row yields: an article record, or the error that
/// pins down which requirement the row misses.  Requirements are checked
/// in this order: cell count, date, link element, `href` attribute.
pub open spec fn row_model(row: RawRow) -> Result<ArticleModel, ParseError> {
    if row.cells@.len() < 2 {
        Err(ParseError::RowTooShort)
    } else if !valid_date_str(date_text(row)) {
        Err(ParseError::BadDate)
    } else if row.cells@[1].links@.len() == 0 {
        Err(ParseError::MissingLink)
    } else {
        match row.cells@[1].links@[0].href {
            None => Err(ParseError::MissingHref),
            Some(h) => Ok(
                ArticleModel {
                    date: date_of_str(date_text(row)),
                    title: join_with(row.cells@[1].links@[0].text_parts.deep_view(), " "@),
                    link: link_base() + h@,
                },
            ),
        }
    }
}

/// The model of a parse result.
pub open spec fn parse_result_model(r: Result<NewsArticle, ParseError>) -> Result<
    ArticleModel,
    ParseError,
> {
    match r {
        Ok(a) => Ok(a.model()),
        Err(e) => Err(e),
    }
}

/// Parses one raw row into an article record.
///
/// The publish date is the first cell's concatenated text, read as
/// `YYYY-MM-DD` and normalised to midnight UTC.  The title is the first
/// `a` element's text nodes joined by single spaces; the link is its
/// `href` appended to the fixed base.  Malformed rows are reported, not
/// skipped: the caller decides to drop them.
pub fn parse_row(row: &RawRow) -> (r: Result<NewsArticle, ParseError>)
    ensures
        parse_result_model(r) == row_model(*row),
        r matches Ok(a) ==> a.date.wf(),
{
    if row.cells.len() < 2 {
        return Err(ParseError::RowTooShort);
    }
    let date_str = join_with_sep(&row.cells[0].text_parts, "");
    proof {
        reveal_strlit("");
        assert(""@ =~= Seq::<char>::empty());
    }
    let date = match parse_date(date_str.as_str()) {
        Some(d) => d,
        None => {
            return Err(ParseError::BadDate);
        },
    };
    let link_cell = &row.cells[1];
    if link_cell.links.len() == 0 {
        return Err(ParseError::MissingLink);
    }
    let first_link = &link_cell.links[0];
    let href = match &first_link.href {
        Some(h) => h,
        None => {
            return Err(ParseError::MissingHref);
        },
    };
    let title = join_with_sep(&first_link.text_parts, " ");
    let link = String::from_str("https://archlinux.org").concat(href.as_str());
    Ok(NewsArticle { date, title, link })
}

/// Parses every row, keeping each row's outcome in order.
pub fn parse_rows(rows: &Vec<RawRow>) -> (r: Vec<Result<NewsArticle, ParseError>>)
    ensures
        r@.len() == rows@.len(),
        forall|i: int|
            0 <= i < rows@.len() ==> parse_result_model(r@[i]) == row_model(rows@[i]),
        forall|i: int|
            0 <= i < rows@.len() ==> (#[trigger] r@[i] matches Ok(a) ==> a.date.wf()),
{
    let mut r: Vec<Result<NewsArticle, ParseError>> = Vec::new();
    let mut i: usize = 0;
    while i < rows.len()
        invariant
            i <= rows.len(),
            r@.len() == i,
            forall|k: int| 0 <= k < i ==> parse_result_model(r@[k]) == row_model(rows@[k]),
            forall|k: int| 0 <= k < i ==> (#[trigger] r@[k] matches Ok(a) ==> a.date.wf()),
        decreases rows.len() - i,
    {
        r.push(parse_row(&rows[i]));
        i += 1;
    }
    r
}

} // verus!
