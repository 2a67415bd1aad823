//! Scraping: what is made of the texts that were picked from a page of a
//! comic, and the errors of a scraper.

use vstd::prelude::*;
use vstd::string::StringExecFns;
use std::num::ParseIntError;
use crate::comic::ComicMetadata;
use crate::comic::ComicView;
use crate::comic::blank_comic;
use crate::text::clone_strings;
use crate::text::texts;
use crate::text::find_char;
use crate::text::first_char;
use crate::text::has_digit;
use crate::text::number_in;
use crate::text::is_digit;
use crate::text::keep_digits;
use crate::text::lemma_digits_of;
use crate::text::split_all;
use crate::text::split_on;

verus! {

#[verifier::external_type_specification]
#[verifier::external_body]
pub struct ExParseIntError(ParseIntError);

/// The text that `std::num::ParseIntError` shows of itself through
/// `Display`. Nothing is claimed of the text.
#[verifier::external_body]
fn parse_int_error_text(err: &ParseIntError) -> String {
    err.to_string()
}

/// A scraper's error as mathematics.
pub enum ScraperErrorView {
    NotFound { url: Seq<char> },
    NetWorkError { message: Seq<char> },
    ParseError { message: Seq<char> },
    ElementNotFound { name: Seq<char> },
    InitializeFailed { field: Seq<char>, message: Seq<char> },
}

/// Reads an `i16` from decimal digits with `str::parse`, which is `FromStr`
/// for `i16`: the digits are read in base ten, and the call fails exactly
/// when there is no digit or the number does not fit.
#[verifier::external_body]
fn parse_i16(digits: &str) -> (r: Result<i16, ParseIntError>)
    requires
        forall|i: int| 0 <= i < digits@.len() ==> is_digit(#[trigger] digits@[i]),
    ensures
        match r {
            Ok(n) => digits@.len() > 0 && n == number_in(digits@),
            Err(_) => digits@.len() == 0 || number_in(digits@) > i16::MAX,
        },
{
    digits.parse::<i16>()
}

/// Why a page could not be scraped.
#[derive(Debug)]
pub enum ScraperError {
    NotFound { url: String },
    NetWorkError { message: String },
    ParseError { message: String },
    ElementNotFound { name: String },
    InitializeFailed { field: String, message: String },
}

impl View for ScraperError {
    type V = ScraperErrorView;

    open spec fn view(&self) -> ScraperErrorView {
        match self {
            ScraperError::NotFound { url } => ScraperErrorView::NotFound { url: url@ },
            ScraperError::NetWorkError { message } => ScraperErrorView::NetWorkError {
                message: message@,
            },
            ScraperError::ParseError { message } => ScraperErrorView::ParseError {
                message: message@,
            },
            ScraperError::ElementNotFound { name } => ScraperErrorView::ElementNotFound {
                name: name@,
            },
            ScraperError::InitializeFailed { field, message } => ScraperErrorView::InitializeFailed {
                field: field@,
                message: message@,
            },
        }
    }
}

/// A scraper's error in words.
pub open spec fn error_text(error: ScraperErrorView) -> Seq<char> {
    match error {
        ScraperErrorView::NotFound { url } => "page not found: "@ + url,
        ScraperErrorView::NetWorkError { message } => "network error: "@ + message,
        ScraperErrorView::ParseError { message } => "parse error: "@ + message,
        ScraperErrorView::ElementNotFound { name } => "cirtical element not found: "@ + name,
        ScraperErrorView::InitializeFailed { field, message } => "initialize failed, field="@
            + field + ", message="@ + message,
    }
}

impl ScraperError {
    /// The error in words.
    pub fn message(&self) -> (r: String)
        ensures
            r@ == error_text(self@),
    {
        match self {
            ScraperError::NotFound { url } => "page not found: ".to_owned().concat(url.as_str()),
            ScraperError::NetWorkError { message } => "network error: ".to_owned().concat(
                message.as_str(),
            ),
            ScraperError::ParseError { message } => "parse error: ".to_owned().concat(
                message.as_str(),
            ),
            ScraperError::ElementNotFound { name } => "cirtical element not found: ".to_owned().concat(
                name.as_str(),
            ),
            ScraperError::InitializeFailed { field, message } => "initialize failed, field=".to_owned().concat(
                field.as_str(),
            ).concat(", message=").concat(message.as_str()),
        }
    }
}

impl From<ParseIntError> for ScraperError {
    fn from(err: ParseIntError) -> (r: Self)
        ensures
            r is ParseError,
    {
        ScraperError::ParseError { message: parse_int_error_text(&err) }
    }
}

impl vstd::std_specs::convert::FromSpecImpl<ParseIntError> for ScraperError {
    open spec fn obeys_from_spec() -> bool {
        false
    }

    open spec fn from_spec(err: ParseIntError) -> Self {
        ScraperError::ParseError { message: arbitrary() }
    }
}

/// The author that a title names: the text between the first `[` and the
/// first `]`, when the `[` comes first.
pub open spec fn author_in(title: Seq<char>) -> Option<Seq<char>> {
    let open = first_char(title, '[');
    let close = first_char(title, ']');
    if open < close < title.len() {
        Some(title.subrange(open + 1, close))
    } else {
        None
    }
}

/// The category and the language of a comic: the pieces, between the `／`,
/// of what stands between the first `：` and the second.
pub open spec fn cate_and_lang(text: Seq<char>) -> Seq<Seq<char>> {
    let parts = split_on(text, '\u{ff1a}');
    if parts.len() >= 2 {
        split_on(parts[1], '\u{ff0f}')
    } else {
        Seq::empty()
    }
}

/// The author that a title names in square brackets.
pub fn extract_author_from_title(title: &String) -> (r: Option<String>)
    ensures
        crate::labels::text_of(r) == author_in(title@),
{
    let text = title.as_str();
    let n = text.unicode_len();
    let start = find_char(text, '[');
    let end = find_char(text, ']');
    if start < end && end < n {
        Some(text.substring_char(start + 1, end).to_owned())
    } else {
        None
    }
}

/// The category and the language that a line such as `分类：x／y` names.
pub fn extract_cate_and_lang(s: &String) -> (r: Vec<String>)
    ensures
        texts(r@) == cate_and_lang(s@),
{
    let parts = split_all(s.as_str(), '\u{ff1a}');
    if parts.len() >= 2 {
        split_all(parts[1].as_str(), '\u{ff0f}')
    } else {
        let none: Vec<String> = Vec::new();
        none
    }
}

/// The first of the texts that were picked for a field. `ElementNotFound`
/// with the field's name when none was picked.
pub fn select_first_field(found: &Vec<String>, field: &str) -> (r: Result<String, ScraperError>)
    ensures
        match r {
            Ok(text) => found@.len() > 0 && text@ == found@[0]@,
            Err(e) => found@.len() == 0 && e@ == (ScraperErrorView::ElementNotFound {
                name: field@,
            }),
        },
{
    if found.len() == 0 {
        Err(ScraperError::ElementNotFound { name: field.to_owned() })
    } else {
        Ok(found[0].clone())
    }
}

/// The text at an index of a list, or the empty text beyond its end.
pub open spec fn text_at(list: Seq<Seq<char>>, index: int) -> Seq<char> {
    if 0 <= index < list.len() {
        list[index]
    } else {
        Seq::empty()
    }
}

/// The text at an index of a list, or the empty text beyond its end.
pub fn get_or_default(list: &Vec<String>, index: usize) -> (r: String)
    ensures
        r@ == text_at(texts(list@), index as int),
{
    if index < list.len() {
        list[index].clone()
    } else {
        String::new()
    }
}

/// The texts that were picked from a page, field by field, each in the order
/// of the page.
#[derive(Debug)]
pub struct ScrapedFields {
    pub title: Vec<String>,
    pub label: Vec<String>,
    pub page: Vec<String>,
    pub uploader: Vec<String>,
    pub category: Vec<String>,
}

/// The picked texts as mathematics.
pub struct ScrapedFieldsView {
    pub title: Seq<Seq<char>>,
    pub label: Seq<Seq<char>>,
    pub page: Seq<Seq<char>>,
    pub uploader: Seq<Seq<char>>,
    pub category: Seq<Seq<char>>,
}

impl View for ScrapedFields {
    type V = ScrapedFieldsView;

    open spec fn view(&self) -> ScrapedFieldsView {
        ScrapedFieldsView {
            title: texts(self.title@),
            label: texts(self.label@),
            page: texts(self.page@),
            uploader: texts(self.uploader@),
            category: texts(self.category@),
        }
    }
}

/// Why scraping fails.
pub enum ScrapeFailure {
    /// No text was picked for the field of that name.
    Missing { name: Seq<char> },
    /// The page line holds no digit, or its number does not fit in an `i16`.
    PagesUnreadable,
}

/// Whether the number of pages can be read from a page line: the line holds
/// a digit, and the number that its digits spell fits in an `i16`.
pub open spec fn pages_readable(line: Seq<char>) -> bool {
    has_digit(line) && number_in(line) <= i16::MAX
}

/// What scraping makes of the picked texts.
///
/// A title, an uploader, a category and a page count must have been picked,
/// and are missed in that order. The author is read from the title, category
/// and language from the category line, the number of pages from the digits
/// of the page line. Every picked label is kept. The address is the given
/// one and the source is `wnacg`.
pub open spec fn scraped(url: Seq<char>, fields: ScrapedFieldsView) -> Result<
    ComicView,
    ScrapeFailure,
> {
    if fields.title.len() == 0 {
        Err(ScrapeFailure::Missing { name: "title"@ })
    } else if fields.uploader.len() == 0 {
        Err(ScrapeFailure::Missing { name: "uploader"@ })
    } else if fields.category.len() == 0 {
        Err(ScrapeFailure::Missing { name: "category"@ })
    } else if fields.page.len() == 0 {
        Err(ScrapeFailure::Missing { name: "page"@ })
    } else if !pages_readable(fields.page[0]) {
        Err(ScrapeFailure::PagesUnreadable)
    } else {
        Ok(
            ComicView {
                title: fields.title[0],
                author: match author_in(fields.title[0]) {
                    Some(author) => author,
                    None => Seq::empty(),
                },
                uploader: fields.uploader[0],
                category: text_at(cate_and_lang(fields.category[0]), 0),
                language: text_at(cate_and_lang(fields.category[0]), 1),
                labels: fields.label,
                pages: number_in(fields.page[0]) as i16,
                url,
                source: "wnacg"@,
                ..blank_comic()
            },
        )
    }
}

/// Whether the outcome `r` of scraping is the expected one: the expected
/// metadata; for a missing field the error that names it; for unreadable
/// pages a parse error, whose message is the parser's own.
pub open spec fn scrape_meets(
    r: Result<ComicMetadata, ScraperError>,
    expected: Result<ComicView, ScrapeFailure>,
) -> bool {
    match expected {
        Ok(meta) => r matches Ok(made) && made@ == meta,
        Err(ScrapeFailure::Missing { name }) => r matches Err(e) && e@ == (
        ScraperErrorView::ElementNotFound { name }),
        Err(ScrapeFailure::PagesUnreadable) => r matches Err(e) && e is ParseError,
    }
}

/// The number of pages that a page line names: the number that its digits
/// spell. A parse error, with the parser's own message, when the line holds
/// no digit or the number does not fit in an `i16`.
pub fn read_pages(line: &str) -> (r: Result<i16, ScraperError>)
    ensures
        match r {
            Ok(pages) => pages_readable(line@) && pages == number_in(line@),
            Err(e) => !pages_readable(line@) && e is ParseError,
        },
{
    let digits = keep_digits(line);
    proof {
        lemma_digits_of(line@);
    }
    match parse_i16(digits.as_str()) {
        Ok(pages) => Ok(pages),
        Err(e) => Err(ScraperError::from(e)),
    }
}

/// The metadata of the comic at `url`, made of the texts that were picked
/// from its page.
pub fn scrape_comic_from_fields(url: &String, fields: &ScrapedFields) -> (r: Result<
    ComicMetadata,
    ScraperError,
>)
    ensures
        scrape_meets(r, scraped(url@, fields@)),
{
    let mut meta = ComicMetadata::default();
    meta.title = match select_first_field(&fields.title, "title") {
        Ok(text) => text,
        Err(e) => {
            return Err(e);
        },
    };
    meta.author = match extract_author_from_title(&meta.title) {
        Some(author) => author,
        None => String::new(),
    };
    meta.uploader = match select_first_field(&fields.uploader, "uploader") {
        Ok(text) => text,
        Err(e) => {
            return Err(e);
        },
    };
    let raw_category = match select_first_field(&fields.category, "category") {
        Ok(text) => text,
        Err(e) => {
            return Err(e);
        },
    };
    let cates = extract_cate_and_lang(&raw_category);
    meta.category = get_or_default(&cates, 0);
    meta.language = get_or_default(&cates, 1);
    meta.labels = clone_strings(&fields.label);
    let raw_page = match select_first_field(&fields.page, "page") {
        Ok(text) => text,
        Err(e) => {
            return Err(e);
        },
    };
    meta.pages = match read_pages(raw_page.as_str()) {
        Ok(pages) => pages,
        Err(e) => {
            return Err(e);
        },
    };
    meta.url = url.clone();
    meta.source = "wnacg".to_owned();
    Ok(meta)
}

} // verus!
