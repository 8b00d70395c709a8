//! The ways in which a scrape fails.

use crate::text::{decimal, push_decimal, push_text, string_of};
use vstd::prelude::*;

verus! {

/// The part of fetching the page at which the network failed.
#[derive(Clone, Copy, Debug, PartialEq, Eq, Structural)]
pub enum FetchPhase {
    /// Sending the request and waiting for the answer.
    Request,
    /// Reading the body of the answer.
    Body,
}

/// Why a scrape was given up.
pub enum ScrapeError {
    /// The target is no absolute URL.
    InvalidUrl { url: String },
    /// The exclusion document forbids the target's path to this agent.
    PolicyViolation { path: String, prefix: String },
    /// The page could not be fetched, or its body could not be read.
    Network { phase: FetchPhase, detail: String },
    /// The server answered with a status outside 200 to 299. The reason is
    /// the standard phrase for the status, where there is one.
    HttpStatus { code: u16, reason: Option<String> },
    /// The selector does not follow the selector grammar.
    SelectorSyntax { selector: String },
    /// No element of the page gave a record.
    NoMatch { selector: String, url: String },
}

/// The mathematical content of a [`ScrapeError`].
pub enum ErrorModel {
    InvalidUrl { url: Seq<char> },
    PolicyViolation { path: Seq<char>, prefix: Seq<char> },
    Network { phase: FetchPhase, detail: Seq<char> },
    HttpStatus { code: u16, reason: Option<Seq<char>> },
    SelectorSyntax { selector: Seq<char> },
    NoMatch { selector: Seq<char>, url: Seq<char> },
}

impl View for ScrapeError {
    type V = ErrorModel;

    open spec fn view(&self) -> ErrorModel {
        match self {
            ScrapeError::InvalidUrl { url } => ErrorModel::InvalidUrl { url: url@ },
            ScrapeError::PolicyViolation { path, prefix } => ErrorModel::PolicyViolation {
                path: path@,
                prefix: prefix@,
            },
            ScrapeError::Network { phase, detail } => ErrorModel::Network {
                phase: *phase,
                detail: detail@,
            },
            ScrapeError::HttpStatus { code, reason } => ErrorModel::HttpStatus {
                code: *code,
                reason: match reason {
                    Some(phrase) => Some(phrase@),
                    None => None,
                },
            },
            ScrapeError::SelectorSyntax { selector } => ErrorModel::SelectorSyntax {
                selector: selector@,
            },
            ScrapeError::NoMatch { selector, url } => ErrorModel::NoMatch {
                selector: selector@,
                url: url@,
            },
        }
    }
}

impl ErrorModel {
    /// The sentence that reports the error.
    pub open spec fn message(self) -> Seq<char> {
        match self {
            ErrorModel::InvalidUrl { url } => "Invalid URL format: "@ + url,
            ErrorModel::PolicyViolation { path, prefix } => "Access to "@ + path
                + " is disallowed by robots.txt (rule: Disallow: "@ + prefix + ")"@,
            ErrorModel::Network { phase, detail } => match phase {
                FetchPhase::Request => "Network error: "@ + detail,
                FetchPhase::Body => "Failed to read response body: "@ + detail,
            },
            ErrorModel::HttpStatus { code, reason } => match reason {
                Some(phrase) => "HTTP error: "@ + decimal(code as nat) + " "@ + phrase + " - "@
                    + phrase,
                None => "HTTP error: "@ + decimal(code as nat) + " <unknown status code>"@
                    + " - "@ + "Unknown"@,
            },
            ErrorModel::SelectorSyntax { selector } => "Invalid CSS selector: "@ + selector,
            ErrorModel::NoMatch { selector, url } => "No elements found matching selector '"@
                + selector + "' on "@ + url,
        }
    }
}

impl ScrapeError {
    /// The sentence that reports the error.
    pub fn message(&self) -> (text: String)
        ensures
            text@ == self@.message(),
    {
        let mut out: Vec<char> = Vec::new();
        match self {
            ScrapeError::InvalidUrl { url } => {
                push_text(&mut out, "Invalid URL format: ");
                push_text(&mut out, url.as_str());
            },
            ScrapeError::PolicyViolation { path, prefix } => {
                push_text(&mut out, "Access to ");
                push_text(&mut out, path.as_str());
                push_text(&mut out, " is disallowed by robots.txt (rule: Disallow: ");
                push_text(&mut out, prefix.as_str());
                push_text(&mut out, ")");
            },
            ScrapeError::Network { phase, detail } => {
                match phase {
                    FetchPhase::Request => push_text(&mut out, "Network error: "),
                    FetchPhase::Body => push_text(&mut out, "Failed to read response body: "),
                }
                push_text(&mut out, detail.as_str());
            },
            ScrapeError::HttpStatus { code, reason } => {
                push_text(&mut out, "HTTP error: ");
                push_decimal(&mut out, *code as u64);
                match reason {
                    Some(phrase) => {
                        push_text(&mut out, " ");
                        push_text(&mut out, phrase.as_str());
                        push_text(&mut out, " - ");
                        push_text(&mut out, phrase.as_str());
                    },
                    None => {
                        push_text(&mut out, " <unknown status code>");
                        push_text(&mut out, " - ");
                        push_text(&mut out, "Unknown");
                    },
                }
            },
            ScrapeError::SelectorSyntax { selector } => {
                push_text(&mut out, "Invalid CSS selector: ");
                push_text(&mut out, selector.as_str());
            },
            ScrapeError::NoMatch { selector, url } => {
                push_text(&mut out, "No elements found matching selector '");
                push_text(&mut out, selector.as_str());
                push_text(&mut out, "' on ");
                push_text(&mut out, url.as_str());
            },
        }
        string_of(out.as_slice())
    }
}

} // verus!
