//! The target of a scrape: what the policy check and the fetch read of a URL.

use crate::error::{ErrorModel, ScrapeError};
use crate::text::{push_text, string_of};
use vstd::prelude::*;

verus! {

#[verifier::external_type_specification]
#[verifier::external_body]
pub struct ExUrl(url::Url);

#[verifier::external_type_specification]
#[verifier::external_body]
pub struct ExParseError(url::ParseError);

/// The URL that `Url::parse` reads from a text; none for a text that it
/// refuses.
pub uninterp spec fn url_of(text: Seq<char>) -> Option<url::Url>;

/// Whether a text is an absolute URL: whether `Url::parse` accepts it.
pub open spec fn url_parses(text: Seq<char>) -> bool {
    url_of(text) is Some
}

/// The scheme that `Url::scheme` gives for a URL.
pub uninterp spec fn scheme_of(url: url::Url) -> Seq<char>;

/// The host that `Url::host_str` gives for a URL; none for a URL without one.
pub uninterp spec fn host_of(url: url::Url) -> Option<Seq<char>>;

/// The path that `Url::path` gives for a URL.
pub uninterp spec fn path_of(url: url::Url) -> Seq<char>;

/// Parses an absolute URL.
///
/// Trusted: `url::Url::parse` accepts or refuses a text, and builds the URL,
/// from the text alone; the contract gives that outcome its name and claims
/// nothing else of it.
#[verifier::external_body]
fn parse_url(text: &str) -> (r: Result<url::Url, url::ParseError>)
    ensures
        r is Ok <==> url_of(text@) is Some,
        r matches Ok(url) ==> url_of(text@) == Some(url),
{
    url::Url::parse(text)
}

/// The scheme of `url`.
///
/// Trusted: `Url::scheme` returns for every URL a text that depends on the
/// URL alone; the contract gives the text its name and claims nothing else of
/// it.
#[verifier::external_body]
fn url_scheme(url: &url::Url) -> (scheme: &str)
    ensures
        scheme@ == scheme_of(*url),
{
    url.scheme()
}

/// The host of `url`, if it has one.
///
/// Trusted: `Url::host_str` returns for every URL, and what it returns
/// depends on the URL alone; the contract gives the outcome its name and
/// claims nothing else of it.
#[verifier::external_body]
fn url_host(url: &url::Url) -> (host: Option<&str>)
    ensures
        host is Some <==> host_of(*url) is Some,
        host matches Some(text) ==> host_of(*url) == Some(text@),
{
    url.host_str()
}

/// The path of `url`.
///
/// Trusted: `Url::path` returns for every URL a text that depends on the URL
/// alone; the contract gives the text its name and claims nothing else of it.
#[verifier::external_body]
fn url_path(url: &url::Url) -> (path: &str)
    ensures
        path@ == path_of(*url),
{
    url.path()
}

/// What a scrape reads of its target URL.
pub struct Target {
    /// The scheme, without the colon.
    pub scheme: String,
    /// The host; empty for a URL without one.
    pub host: String,
    /// The path, which the exclusion policy is asked about.
    pub path: String,
}

/// The mathematical content of a [`Target`].
pub struct TargetModel {
    pub scheme: Seq<char>,
    pub host: Seq<char>,
    pub path: Seq<char>,
}

impl View for Target {
    type V = TargetModel;

    open spec fn view(&self) -> TargetModel {
        TargetModel { scheme: self.scheme@, host: self.host@, path: self.path@ }
    }
}

/// What a scrape reads of a URL: its scheme, its host (empty for a URL
/// without one) and its path.
pub open spec fn target_of_url(url: url::Url) -> TargetModel {
    TargetModel {
        scheme: scheme_of(url),
        host: match host_of(url) {
            Some(host) => host,
            None => Seq::empty(),
        },
        path: path_of(url),
    }
}

/// The target that a text stands for; none for a text that is no absolute
/// URL.
pub open spec fn target_of(text: Seq<char>) -> Option<TargetModel> {
    match url_of(text) {
        Some(url) => Some(target_of_url(url)),
        None => None,
    }
}

impl TargetModel {
    /// Where the exclusion document of the target's site lives: at
    /// `/robots.txt` on the target's scheme and host.
    pub open spec fn policy_url(self) -> Seq<char> {
        self.scheme + "://"@ + self.host + "/robots.txt"@
    }
}

impl Target {
    /// Reads a target from the text of a URL. A text that is no absolute URL
    /// is refused, and no other.
    pub fn parse(text: &str) -> (r: Result<Target, ScrapeError>)
        ensures
            r is Ok <==> url_parses(text@),
            r matches Ok(target) ==> target_of(text@) == Some(target@),
            r matches Err(error) ==> error@ == (ErrorModel::InvalidUrl { url: text@ }),
    {
        match parse_url(text) {
            Ok(url) => {
                let host = match url_host(&url) {
                    Some(host) => host.to_owned(),
                    None => String::new(),
                };
                Ok(
                    Target {
                        scheme: url_scheme(&url).to_owned(),
                        host,
                        path: url_path(&url).to_owned(),
                    },
                )
            },
            Err(_) => Err(ScrapeError::InvalidUrl { url: text.to_owned() }),
        }
    }

    /// Where the exclusion document of the target's site lives.
    pub fn policy_url(&self) -> (url: String)
        ensures
            url@ == self@.policy_url(),
    {
        let mut out: Vec<char> = Vec::new();
        push_text(&mut out, self.scheme.as_str());
        push_text(&mut out, "://");
        push_text(&mut out, self.host.as_str());
        push_text(&mut out, "/robots.txt");
        string_of(out.as_slice())
    }
}

} // verus!
