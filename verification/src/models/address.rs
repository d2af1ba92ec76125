//! What makes an address usable as a server's address.

use crate::error::{AppError, AppErrorView};
use crate::text::{concat2, owned, str_eq, trim, trim_whitespace};
use vstd::prelude::*;
use vstd::string::*;

verus! {

/// What the checks read of a parsed address.
pub struct ParsedUrl {
    /// The scheme, in lower case, without the colon.
    pub scheme: String,
    /// Whether the address names a host.
    pub has_host: bool,
}

/// What the `url` crate makes of a text as an absolute URL: its scheme and
/// whether it has a host, or the words of the parse error.
pub uninterp spec fn url_parse(input: Seq<char>) -> Result<(Seq<char>, bool), Seq<char>>;

/// The plain values of a parse result.
pub open spec fn parsed_view(parsed: Result<ParsedUrl, String>) -> Result<
    (Seq<char>, bool),
    Seq<char>,
> {
    match parsed {
        Ok(p) => Ok((p.scheme@, p.has_host)),
        Err(e) => Err(e@),
    }
}

/// Parses `input` with `url::Url::parse`. On success it hands out what
/// `Url::scheme` returns and whether `Url::host` returns a host; on failure
/// the text of the `ParseError`. The result is a function of the text alone.
#[verifier::external_body]
pub(crate) fn parse_url(input: &str) -> (r: Result<ParsedUrl, String>)
    ensures
        parsed_view(r) == url_parse(input@),
{
    match url::Url::parse(input) {
        Ok(u) => Ok(ParsedUrl { scheme: u.scheme().to_string(), has_host: u.host().is_some() }),
        Err(e) => Err(e.to_string()),
    }
}

/// The plain values of a verdict.
pub open spec fn verdict_view(r: Result<(), AppError>) -> Result<(), AppErrorView> {
    match r {
        Ok(()) => Ok(()),
        Err(e) => Err(e@),
    }
}

/// The verdict on a server address `url` that parsed as `parsed`. It must
/// not be blank, must parse, use the scheme `http` or `https`, and name a
/// host; the first of these that fails is reported. `invalid` introduces
/// the parse error, and `subject` is what the other messages call the
/// address.
pub open spec fn address_verdict(
    url: Seq<char>,
    parsed: Result<(Seq<char>, bool), Seq<char>>,
    invalid: Seq<char>,
    subject: Seq<char>,
) -> Result<(), AppErrorView> {
    if trim_whitespace(url).len() == 0 {
        Err(AppErrorView::InvalidUrl("Server URL cannot be empty"@))
    } else {
        match parsed {
            Err(e) => Err(AppErrorView::InvalidUrl(invalid + e)),
            Ok((scheme, has_host)) => {
                if scheme != "http"@ && scheme != "https"@ {
                    Err(AppErrorView::InvalidUrl(subject + " must use http or https scheme"@))
                } else if !has_host {
                    Err(AppErrorView::InvalidUrl(subject + " must have a host"@))
                } else {
                    Ok(())
                }
            },
        }
    }
}

/// The verdict on a server address `url` that parsed as `parsed`.
pub fn check_address(
    url: &str,
    parsed: &Result<ParsedUrl, String>,
    invalid: &str,
    subject: &str,
) -> (r: Result<(), AppError>)
    ensures
        verdict_view(r) == address_verdict(url@, parsed_view(*parsed), invalid@, subject@),
{
    if trim(url).unicode_len() == 0 {
        return Err(AppError::InvalidUrl(owned("Server URL cannot be empty")));
    }
    match parsed {
        Err(e) => Err(AppError::InvalidUrl(concat2(invalid, e.as_str()))),
        Ok(p) => {
            if !str_eq(p.scheme.as_str(), "http") && !str_eq(p.scheme.as_str(), "https") {
                Err(AppError::InvalidUrl(concat2(subject, " must use http or https scheme")))
            } else if !p.has_host {
                Err(AppError::InvalidUrl(concat2(subject, " must have a host")))
            } else {
                Ok(())
            }
        },
    }
}

} // verus!
