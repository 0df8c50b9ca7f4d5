//! Calls into other crates and into the file system, with what is assumed of them.
use vstd::prelude::*;

verus! {

/// Whether chrono accepts `s` as a calendar date written in `fmt`.
pub uninterp spec fn is_date_in_format(s: Seq<char>, fmt: Seq<char>) -> bool;

/// Whether the url crate accepts `s` as an absolute URL.
pub uninterp spec fn is_url_text(s: Seq<char>) -> bool;

/// Relies on chrono's `NaiveDate::parse_from_str`: success depends on the
/// text and the format alone.
#[verifier::external_body]
pub(crate) fn parses_as_date(s: &str, fmt: &str) -> (r: bool)
    ensures
        r == is_date_in_format(s@, fmt@),
{
    chrono::NaiveDate::parse_from_str(s, fmt).is_ok()
}

/// Relies on the url crate's `Url::parse`: success depends on the text alone.
#[verifier::external_body]
pub(crate) fn parses_as_url(s: &str) -> (r: bool)
    ensures
        r == is_url_text(s@),
{
    url::Url::parse(s).is_ok()
}

/// Relies on `std::path::Path::is_file`: asks the file system whether a
/// regular file exists at `s`; nothing is known of the answer.
#[verifier::external_body]
pub(crate) fn path_is_file(s: &str) -> (r: bool) {
    std::path::Path::new(s).is_file()
}

/// Relies on `std::path::Path::is_dir`: asks the file system whether a
/// directory exists at `s`; nothing is known of the answer.
#[verifier::external_body]
pub(crate) fn path_is_dir(s: &str) -> (r: bool) {
    std::path::Path::new(s).is_dir()
}

} // verus!
