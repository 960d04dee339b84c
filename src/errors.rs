use vstd::prelude::*;

use crate::text::concat;

verus! {

#[verifier::external_type_specification]
#[verifier::external_body]
pub struct ExParseError(url::ParseError);

/// Why a game page could not be turned into a list of intermediary links.
#[derive(Debug)]
pub enum ScrapeError {
    /// The page names no "Filehoster: FuckingFast" source.
    FuckingFastSourceMissing,
    /// The game URL could not be parsed.
    IllFormedURL(url::ParseError),
    /// The game URL has no path segments.
    UnexpectedURL,
    /// The HTTP request failed; the transport's message.
    RequestError(String),
    /// The task that parsed the page did not complete.
    JoinError,
    /// A CSS selector was rejected by the HTML query facility.
    InvalidCSSSelector,
    /// The site answered 403: the request was blocked.
    DDoSGuarded,
}

/// Why an intermediary link could not be resolved into a direct download link.
#[derive(Debug, PartialEq, Eq)]
pub enum ExtractError {
    /// The intermediary URL carries no filename after `#`.
    FilenameMissing,
    /// The page does not hold the direct download link.
    DDLMissing,
    /// The HTTP request failed; the transport's message.
    RequestError(String),
    /// A CSS selector was rejected by the HTML query facility.
    InvalidCSSSelector,
    /// The task that parsed the page did not complete.
    JoinError,
    /// The host reported rate limiting: the whole run must stop.
    RateLimited,
    /// The host reported that the named file was deleted.
    FileNotFound(String),
}

/// Relies on the `Display` impl of `url::ParseError`, which writes a fixed description of
/// each kind of parse failure.
#[verifier::external_body]
fn url_error_text(e: &url::ParseError) -> (r: String) {
    e.to_string()
}

/// `m` is the message of `e`: fixed text for each kind, with the wrapped message where
/// the kind carries one.
pub open spec fn is_scrape_error_text(e: ScrapeError, m: Seq<char>) -> bool {
    match e {
        ScrapeError::FuckingFastSourceMissing => m == "fuckingfast.co source was missing"@,
        ScrapeError::IllFormedURL(_) => exists|d: Seq<char>| m == "ill-formed url: "@ + d,
        ScrapeError::UnexpectedURL => m == "expected link to single game description"@,
        ScrapeError::RequestError(s) => m == "request: "@ + s@,
        ScrapeError::JoinError => m == "join error"@,
        ScrapeError::InvalidCSSSelector => m == "invalid css selector"@,
        ScrapeError::DDoSGuarded => m == "blocked by DDoS protection"@,
    }
}

/// The message of `e`.
pub open spec fn extract_error_text(e: ExtractError) -> Seq<char> {
    match e {
        ExtractError::FilenameMissing => "filename was not found"@,
        ExtractError::DDLMissing => "direct download link was not found"@,
        ExtractError::RequestError(s) => "request: "@ + s@,
        ExtractError::InvalidCSSSelector => "invalid css selector"@,
        ExtractError::JoinError => "join error"@,
        ExtractError::RateLimited => "rate limited"@,
        ExtractError::FileNotFound(_) => "file was deleted"@,
    }
}

impl ScrapeError {
    /// A human-readable description of the error.
    pub fn message(&self) -> (r: String)
        ensures
            is_scrape_error_text(*self, r@),
    {
        match self {
            ScrapeError::FuckingFastSourceMissing => String::from_str(
                "fuckingfast.co source was missing",
            ),
            ScrapeError::IllFormedURL(e) => {
                let d = url_error_text(e);
                let r = concat("ill-formed url: ", d.as_str());
                assert(r@ == "ill-formed url: "@ + d@);
                r
            },
            ScrapeError::UnexpectedURL => String::from_str(
                "expected link to single game description",
            ),
            ScrapeError::RequestError(s) => concat("request: ", s.as_str()),
            ScrapeError::JoinError => String::from_str("join error"),
            ScrapeError::InvalidCSSSelector => String::from_str("invalid css selector"),
            ScrapeError::DDoSGuarded => String::from_str("blocked by DDoS protection"),
        }
    }
}

impl ExtractError {
    /// A human-readable description of the error.
    pub fn message(&self) -> (r: String)
        ensures
            r@ == extract_error_text(*self),
    {
        match self {
            ExtractError::FilenameMissing => String::from_str("filename was not found"),
            ExtractError::DDLMissing => String::from_str("direct download link was not found"),
            ExtractError::RequestError(s) => concat("request: ", s.as_str()),
            ExtractError::InvalidCSSSelector => String::from_str("invalid css selector"),
            ExtractError::JoinError => String::from_str("join error"),
            ExtractError::RateLimited => String::from_str("rate limited"),
            ExtractError::FileNotFound(_) => String::from_str("file was deleted"),
        }
    }
}

} // verus!
